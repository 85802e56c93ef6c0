use cc_auth::{
    check_and_remove_token, check_token, encode, get_user_tokens_list_name, hash_password,
    is_expired, judge_age, log_in, open_session, resume, store_token, AuthError, Outcome,
    Pending, Step, StoreCommand, StoreReply, UserToken, DAYS_VALID, MAX_TOKENS_PER_USER,
};
use std::collections::HashMap;
use std::time::{SystemTime, UNIX_EPOCH};

const DAY: i64 = 86_400;

/// A store of keyed lists in memory that answers as Redis does.
struct MemoryStore {
    lists: HashMap<String, Vec<String>>,
    sent: usize,
}

impl MemoryStore {
    fn new() -> MemoryStore {
        MemoryStore { lists: HashMap::new(), sent: 0 }
    }

    fn list(&self, key: &str) -> Vec<String> {
        self.lists.get(key).cloned().unwrap_or_default()
    }

    fn send(&mut self, command: StoreCommand) -> StoreReply {
        self.sent += 1;
        match command {
            StoreCommand::Length { key } => StoreReply::Length(self.list(&key).len() as isize),
            StoreCommand::Trim { key, start, stop } => {
                let list = self.list(&key);
                let len = list.len() as isize;
                let from = if start < 0 { (len + start).max(0) } else { start };
                let to = if stop < 0 { len + stop } else { stop.min(len - 1) };
                let kept =
                    if from > to { Vec::new() } else { list[from as usize..=to as usize].to_vec() };
                self.lists.insert(key, kept);
                StoreReply::Done
            }
            StoreCommand::PushFront { key, item } => {
                self.lists.entry(key).or_default().insert(0, item);
                StoreReply::Done
            }
            StoreCommand::FindPosition { key, item } => StoreReply::Position(
                self.list(&key).iter().position(|held| *held == item).map(|at| at as i32),
            ),
            StoreCommand::RemoveOne { key, item } => {
                if let Some(list) = self.lists.get_mut(&key) {
                    if let Some(at) = list.iter().position(|held| *held == item) {
                        list.remove(at);
                    }
                }
                StoreReply::Done
            }
        }
    }

    fn run(&mut self, first: Step) -> Result<Outcome, AuthError> {
        let mut step = first;
        loop {
            match step {
                Step::Ask(command, pending) => step = resume(pending, self.send(command)),
                Step::Finished(result) => return result,
            }
        }
    }

    fn issue(&mut self, user_id: u64, secret: &str, salt: &[u8], digest: &[u8]) -> Result<UserToken, AuthError> {
        match self.run(log_in(secret.to_string(), salt, digest, user_id)) {
            Ok(Outcome::LoggedIn(token)) => Ok(token),
            Ok(_) => panic!("log_in ended with the outcome of another operation"),
            Err(error) => Err(error),
        }
    }

    fn validate(&mut self, wire: &str) -> Result<u64, AuthError> {
        match self.run(check_token(&wire.to_string(), read(wire))) {
            Ok(Outcome::Valid(user_id)) => Ok(user_id),
            Ok(_) => panic!("check_token ended with the outcome of another operation"),
            Err(error) => Err(error),
        }
    }

    fn revoke(&mut self, wire: &str) -> Result<(), AuthError> {
        match self.run(check_and_remove_token(&wire.to_string(), read(wire))) {
            Ok(Outcome::Removed) => Ok(()),
            Ok(_) => panic!("check_and_remove_token ended with the outcome of another operation"),
            Err(error) => Err(error),
        }
    }
}

/// What a JSON reader makes of a presented string: the token of an object
/// with the three members, in whatever order and spacing.
fn read(wire: &str) -> Option<UserToken> {
    let value: serde_json::Value = serde_json::from_str(wire).ok()?;
    let object = value.as_object()?;
    Some(UserToken::from_parts(
        object.get("user_id")?.as_u64()?,
        object.get("token_str")?.as_str()?.to_string(),
        object.get("birth")?.as_i64()?,
    ))
}

fn unix_now() -> i64 {
    SystemTime::now().duration_since(UNIX_EPOCH).unwrap().as_secs() as i64
}

fn aged(user_id: u64, value: &str, seconds: i64) -> String {
    encode(&UserToken::from_parts(user_id, value.to_string(), unix_now() - seconds))
}

fn error_of(step: Step) -> Option<AuthError> {
    match step {
        Step::Finished(Err(error)) => Some(error),
        _ => None,
    }
}

#[test]
fn limits_are_3_tokens_and_28_days() {
    assert_eq!(MAX_TOKENS_PER_USER, 3);
    assert_eq!(DAYS_VALID, 28);
}

#[test]
fn scenario_identity_42() {
    let mut store = MemoryStore::new();
    let digest = hash_password(b"p@ss", b"s");
    let key = get_user_tokens_list_name(42);

    let token = store.issue(42, "p@ss", b"s", &digest).unwrap_or_else(|_| panic!("refused"));
    assert_eq!(token.user_id, 42);
    assert_eq!(store.list(&key), vec![encode(&token)]);

    let sent = store.sent;
    assert_eq!(store.issue(42, "wrong", b"s", &digest).err(), Some(AuthError::InvalidCredential));
    assert_eq!(store.list(&key).len(), 1);
    assert_eq!(store.list(&key), vec![encode(&token)]);
    assert_eq!(store.sent, sent);
}

#[test]
fn log_in_with_a_wrong_password_asks_nothing_of_the_store() {
    let digest = hash_password(b"p@ss", b"s");
    assert_eq!(
        error_of(log_in("wrong".to_string(), b"s", &digest, 42)),
        Some(AuthError::InvalidCredential)
    );
    assert_eq!(
        error_of(log_in("p@ss".to_string(), b"t", &digest, 42)),
        Some(AuthError::InvalidCredential)
    );
    assert_eq!(
        error_of(log_in("p@ss".to_string(), b"s", &digest[..31], 42)),
        Some(AuthError::InvalidCredential)
    );
}

#[test]
fn log_in_first_asks_for_the_length_of_the_list() {
    let digest = hash_password(b"p@ss", b"s");
    match log_in("p@ss".to_string(), b"s", &digest, 42) {
        Step::Ask(StoreCommand::Length { key }, Pending::ListLength { user_id }) => {
            assert_eq!(key, "user_tokens:id42");
            assert_eq!(user_id, 42);
        }
        _ => panic!("another step"),
    }
}

#[test]
fn log_in_trims_a_full_list_to_one_below_the_limit() {
    for length in [3isize, 4, 100] {
        match resume(Pending::ListLength { user_id: 42 }, StoreReply::Length(length)) {
            Step::Ask(StoreCommand::Trim { key, start, stop }, Pending::ListTrimmed { user_id }) => {
                assert_eq!(key, "user_tokens:id42");
                assert_eq!(start, 0);
                assert_eq!(stop, 1);
                assert_eq!(user_id, 42);
            }
            _ => panic!("another step"),
        }
    }
}

#[test]
fn log_in_pushes_the_new_token_without_a_trim_below_the_limit() {
    for length in [0isize, 1, 2] {
        match resume(Pending::ListLength { user_id: 42 }, StoreReply::Length(length)) {
            Step::Ask(StoreCommand::PushFront { key, item }, Pending::TokenStored { token }) => {
                assert_eq!(key, "user_tokens:id42");
                assert_eq!(item, encode(&token));
                assert_eq!(token.user_id, 42);
            }
            _ => panic!("another step"),
        }
    }
}

#[test]
fn log_in_pushes_the_new_token_after_the_trim() {
    match resume(Pending::ListTrimmed { user_id: 7 }, StoreReply::Done) {
        Step::Ask(StoreCommand::PushFront { key, item }, Pending::TokenStored { token }) => {
            assert_eq!(key, "user_tokens:id7");
            assert_eq!(item, encode(&token));
            assert_eq!(token.user_id, 7);
            assert_eq!(token.token_str().chars().count(), 64);
        }
        _ => panic!("another step"),
    }
}

#[test]
fn log_in_ends_with_the_stored_token() {
    let token = UserToken::from_parts(5, "abc".to_string(), 17);
    match resume(Pending::TokenStored { token }, StoreReply::Done) {
        Step::Finished(Ok(Outcome::LoggedIn(token))) => {
            assert_eq!(token.user_id, 5);
            assert_eq!(token.token_str(), "abc");
            assert_eq!(token.birth(), 17);
        }
        _ => panic!("another step"),
    }
}

#[test]
fn store_token_pushes_its_wire_form() {
    match store_token(Ok(UserToken::from_parts(5, "abc".to_string(), 17))) {
        Step::Ask(StoreCommand::PushFront { key, item }, Pending::TokenStored { token }) => {
            assert_eq!(key, "user_tokens:id5");
            assert_eq!(item, "{\"user_id\":5,\"token_str\":\"abc\",\"birth\":17}");
            assert_eq!(token.token_str(), "abc");
        }
        _ => panic!("another step"),
    }
    assert_eq!(error_of(store_token(Err(AuthError::Generation))), Some(AuthError::Generation));
}

#[test]
fn sequential_log_ins_respect_the_limit() {
    let mut store = MemoryStore::new();
    let digest = hash_password(b"p@ss", b"s");
    let key = get_user_tokens_list_name(42);
    for round in 1..=10usize {
        assert!(store.issue(42, "p@ss", b"s", &digest).is_ok());
        assert_eq!(store.list(&key).len(), round.min(3));
    }
}

#[test]
fn log_in_cuts_a_list_that_was_too_long() {
    let mut store = MemoryStore::new();
    let digest = hash_password(b"p@ss", b"s");
    let key = get_user_tokens_list_name(42);
    let old: Vec<String> = (0..6).map(|n| format!("old{}", n)).collect();
    store.lists.insert(key.clone(), old.clone());
    let token = store.issue(42, "p@ss", b"s", &digest).unwrap_or_else(|_| panic!("refused"));
    assert_eq!(store.list(&key), vec![encode(&token), old[0].clone(), old[1].clone()]);
}

#[test]
fn log_in_leaves_the_lists_of_other_users_alone() {
    let mut store = MemoryStore::new();
    let digest = hash_password(b"p@ss", b"s");
    let first = store.issue(1, "p@ss", b"s", &digest).unwrap_or_else(|_| panic!("refused"));
    for _ in 0..4 {
        assert!(store.issue(10, "p@ss", b"s", &digest).is_ok());
    }
    assert_eq!(store.list(&get_user_tokens_list_name(1)), vec![encode(&first)]);
    assert_eq!(store.validate(&encode(&first)), Ok(1));
}

#[test]
fn fourth_token_evicts_the_first() {
    let mut store = MemoryStore::new();
    let digest = hash_password(b"p@ss", b"s");
    let mut wires = Vec::new();
    for _ in 0..4 {
        let token = store.issue(42, "p@ss", b"s", &digest).unwrap_or_else(|_| panic!("refused"));
        wires.push(encode(&token));
    }
    assert_eq!(store.validate(&wires[0]), Err(AuthError::UnknownToken));
    assert_eq!(store.validate(&wires[1]), Ok(42));
    assert_eq!(store.validate(&wires[2]), Ok(42));
    assert_eq!(store.validate(&wires[3]), Ok(42));
    assert_eq!(
        store.list(&get_user_tokens_list_name(42)),
        vec![wires[3].clone(), wires[2].clone(), wires[1].clone()]
    );
}

#[test]
fn fresh_token_is_valid_and_validation_leaves_the_store_alone() {
    let mut store = MemoryStore::new();
    let digest = hash_password(b"p@ss", b"s");
    let token = store.issue(42, "p@ss", b"s", &digest).unwrap_or_else(|_| panic!("refused"));
    let held = store.lists.clone();
    assert_eq!(store.validate(&encode(&token)), Ok(42));
    assert_eq!(store.validate(&encode(&token)), Ok(42));
    assert_eq!(store.lists, held);
}

#[test]
fn check_token_first_asks_for_the_position() {
    let wire = "{\"user_id\":42,\"token_str\":\"x\",\"birth\":5}".to_string();
    match check_token(&wire, read(&wire)) {
        Step::Ask(
            StoreCommand::FindPosition { key, item },
            Pending::TokenLookedUp { user_id, issued_at, wire: kept },
        ) => {
            assert_eq!(key, "user_tokens:id42");
            assert_eq!(item, wire);
            assert_eq!(user_id, 42);
            assert_eq!(issued_at, 5);
            assert_eq!(kept, wire);
        }
        _ => panic!("another step"),
    }
}

#[test]
fn malformed_token_asks_nothing_of_the_store() {
    for wire in ["", "garbage", "{}", "{\"user_id\":42}", "{\"user_id\":\"42\",\"token_str\":\"x\",\"birth\":5}"] {
        assert!(read(wire).is_none());
        assert_eq!(
            error_of(check_token(&wire.to_string(), None)),
            Some(AuthError::MalformedToken)
        );
        assert_eq!(
            error_of(check_and_remove_token(&wire.to_string(), None)),
            Some(AuthError::MalformedToken)
        );
    }
    let mut store = MemoryStore::new();
    assert_eq!(store.validate("garbage"), Err(AuthError::MalformedToken));
    assert_eq!(store.revoke("garbage"), Err(AuthError::MalformedToken));
    assert_eq!(store.sent, 0);
}

#[test]
fn token_that_was_never_issued_is_unknown() {
    let mut store = MemoryStore::new();
    let wire = aged(42, "never", 0);
    assert_eq!(store.validate(&wire), Err(AuthError::UnknownToken));
    assert_eq!(store.revoke(&wire), Err(AuthError::UnknownToken));
    let digest = hash_password(b"p@ss", b"s");
    assert!(store.issue(42, "p@ss", b"s", &digest).is_ok());
    assert_eq!(store.validate(&wire), Err(AuthError::UnknownToken));
    assert_eq!(store.list(&get_user_tokens_list_name(42)).len(), 1);
}

#[test]
fn token_of_another_list_is_unknown() {
    let mut store = MemoryStore::new();
    let wire = aged(42, "x", 0);
    store.lists.insert(get_user_tokens_list_name(43), vec![wire.clone()]);
    assert_eq!(store.validate(&wire), Err(AuthError::UnknownToken));
}

#[test]
fn expired_token_is_purged_once() {
    let mut store = MemoryStore::new();
    let key = get_user_tokens_list_name(42);
    let old = aged(42, "old", 29 * DAY);
    let young = aged(42, "young", DAY);
    store.lists.insert(key.clone(), vec![young.clone(), old.clone()]);
    assert_eq!(store.validate(&old), Err(AuthError::ExpiredToken));
    assert_eq!(store.list(&key), vec![young.clone()]);
    assert_eq!(store.validate(&old), Err(AuthError::UnknownToken));
    assert_eq!(store.revoke(&old), Err(AuthError::UnknownToken));
    assert_eq!(store.validate(&young), Ok(42));
    assert_eq!(store.list(&key), vec![young]);
}

#[test]
fn token_expires_when_its_age_reaches_28_whole_days() {
    let mut store = MemoryStore::new();
    let key = get_user_tokens_list_name(42);
    let almost = aged(42, "almost", 28 * DAY - 60);
    let just = aged(42, "just", 28 * DAY + 60);
    let future = aged(42, "future", -5 * DAY);
    store.lists.insert(key.clone(), vec![almost.clone(), just.clone(), future.clone()]);
    assert_eq!(store.validate(&almost), Ok(42));
    assert_eq!(store.validate(&future), Ok(42));
    assert_eq!(store.validate(&just), Err(AuthError::ExpiredToken));
    assert_eq!(store.list(&key), vec![almost, future]);
}

#[test]
fn age_is_counted_in_whole_days() {
    assert!(!is_expired(0, 0));
    assert!(!is_expired(0, 28 * DAY - 1));
    assert!(is_expired(0, 28 * DAY));
    assert!(is_expired(0, 28 * DAY + 1));
    assert!(is_expired(1_700_000_000, 1_700_000_000 + 2_419_200));
    assert!(!is_expired(1_700_000_000, 1_700_000_000 + 2_419_199));
    assert!(!is_expired(100, 0));
    assert!(!is_expired(i64::MAX, i64::MIN));
    assert!(is_expired(i64::MIN, i64::MAX));
    assert!(is_expired(-28 * DAY, 0));
    assert!(!is_expired(-28 * DAY + 1, 0));
}

#[test]
fn judge_age_removes_the_expired_and_accepts_the_rest() {
    match judge_age(42, 1000, "wire".to_string(), 1000 + 28 * DAY) {
        Step::Ask(StoreCommand::RemoveOne { key, item }, Pending::ExpiredRemoved) => {
            assert_eq!(key, "user_tokens:id42");
            assert_eq!(item, "wire");
        }
        _ => panic!("another step"),
    }
    match judge_age(42, 1000, "wire".to_string(), 999 + 28 * DAY) {
        Step::Finished(Ok(Outcome::Valid(user_id))) => assert_eq!(user_id, 42),
        _ => panic!("another step"),
    }
    assert_eq!(
        error_of(resume(Pending::ExpiredRemoved, StoreReply::Done)),
        Some(AuthError::ExpiredToken)
    );
}

#[test]
fn revoked_token_is_unknown() {
    let mut store = MemoryStore::new();
    let digest = hash_password(b"p@ss", b"s");
    let kept = store.issue(42, "p@ss", b"s", &digest).unwrap_or_else(|_| panic!("refused"));
    let token = store.issue(42, "p@ss", b"s", &digest).unwrap_or_else(|_| panic!("refused"));
    let wire = encode(&token);
    assert_eq!(store.revoke(&wire), Ok(()));
    assert_eq!(store.validate(&wire), Err(AuthError::UnknownToken));
    assert_eq!(store.revoke(&wire), Err(AuthError::UnknownToken));
    assert_eq!(store.validate(&encode(&kept)), Ok(42));
    assert_eq!(store.list(&get_user_tokens_list_name(42)), vec![encode(&kept)]);
}

#[test]
fn expired_token_can_be_revoked() {
    let mut store = MemoryStore::new();
    let key = get_user_tokens_list_name(42);
    let old = aged(42, "old", 100 * DAY);
    store.lists.insert(key.clone(), vec![old.clone()]);
    assert_eq!(store.revoke(&old), Ok(()));
    assert!(store.list(&key).is_empty());
    assert_eq!(store.revoke(&old), Err(AuthError::UnknownToken));
}

#[test]
fn token_held_twice_is_removed_once_at_a_time() {
    let mut store = MemoryStore::new();
    let key = get_user_tokens_list_name(42);
    let wire = aged(42, "twice", 0);
    store.lists.insert(key.clone(), vec![wire.clone(), "other".to_string(), wire.clone()]);
    assert_eq!(store.revoke(&wire), Ok(()));
    assert_eq!(store.list(&key), vec!["other".to_string(), wire.clone()]);
    assert_eq!(store.validate(&wire), Ok(42));
    assert_eq!(store.revoke(&wire), Ok(()));
    assert_eq!(store.revoke(&wire), Err(AuthError::UnknownToken));
}

#[test]
fn check_and_remove_token_asks_for_the_position_then_removes() {
    let wire = "{\"user_id\":9,\"token_str\":\"x\",\"birth\":5}".to_string();
    let pending = match check_and_remove_token(&wire, read(&wire)) {
        Step::Ask(StoreCommand::FindPosition { key, item }, pending) => {
            assert_eq!(key, "user_tokens:id9");
            assert_eq!(item, wire);
            pending
        }
        _ => panic!("another step"),
    };
    let pending = match resume(pending, StoreReply::Position(Some(2))) {
        Step::Ask(StoreCommand::RemoveOne { key, item }, pending) => {
            assert_eq!(key, "user_tokens:id9");
            assert_eq!(item, wire);
            pending
        }
        _ => panic!("another step"),
    };
    assert!(matches!(resume(pending, StoreReply::Done), Step::Finished(Ok(Outcome::Removed))));
}

#[test]
fn failure_of_the_store_ends_every_operation() {
    let token = || UserToken::from_parts(1, "x".to_string(), 1);
    let waiting = || {
        vec![
            Pending::ListLength { user_id: 1 },
            Pending::ListTrimmed { user_id: 1 },
            Pending::TokenStored { token: token() },
            Pending::TokenLookedUp { user_id: 1, issued_at: 1, wire: "w".to_string() },
            Pending::ExpiredRemoved,
            Pending::RevokedLookedUp { user_id: 1, wire: "w".to_string() },
            Pending::RevokedRemoved,
        ]
    };
    for pending in waiting() {
        assert_eq!(error_of(resume(pending, StoreReply::Failed)), Some(AuthError::StoreError));
    }
}

#[test]
fn reply_of_another_kind_counts_as_a_failure_of_the_store() {
    let wire = || "w".to_string();
    assert_eq!(
        error_of(resume(Pending::ListLength { user_id: 1 }, StoreReply::Done)),
        Some(AuthError::StoreError)
    );
    assert_eq!(
        error_of(resume(Pending::ListLength { user_id: 1 }, StoreReply::Position(None))),
        Some(AuthError::StoreError)
    );
    assert_eq!(
        error_of(resume(Pending::ListTrimmed { user_id: 1 }, StoreReply::Length(0))),
        Some(AuthError::StoreError)
    );
    assert_eq!(
        error_of(resume(
            Pending::TokenLookedUp { user_id: 1, issued_at: 1, wire: wire() },
            StoreReply::Done
        )),
        Some(AuthError::StoreError)
    );
    assert_eq!(
        error_of(resume(Pending::RevokedLookedUp { user_id: 1, wire: wire() }, StoreReply::Length(1))),
        Some(AuthError::StoreError)
    );
    assert_eq!(
        error_of(resume(Pending::RevokedRemoved, StoreReply::Position(Some(0)))),
        Some(AuthError::StoreError)
    );
    assert_eq!(
        error_of(resume(Pending::ExpiredRemoved, StoreReply::Length(0))),
        Some(AuthError::StoreError)
    );
}

#[test]
fn lookup_without_a_position_is_unknown() {
    assert_eq!(
        error_of(resume(
            Pending::TokenLookedUp { user_id: 1, issued_at: 1, wire: "w".to_string() },
            StoreReply::Position(None)
        )),
        Some(AuthError::UnknownToken)
    );
    assert_eq!(
        error_of(resume(
            Pending::RevokedLookedUp { user_id: 1, wire: "w".to_string() },
            StoreReply::Position(None)
        )),
        Some(AuthError::UnknownToken)
    );
}

#[test]
fn accepted_password_opens_the_exchange() {
    match open_session(true, 42) {
        Step::Ask(StoreCommand::Length { key }, Pending::ListLength { user_id }) => {
            assert_eq!(key, "user_tokens:id42");
            assert_eq!(user_id, 42);
        }
        _ => panic!("another step"),
    }
    assert_eq!(error_of(open_session(false, 42)), Some(AuthError::InvalidCredential));
}

#[test]
fn every_error_has_its_words() {
    assert_eq!(AuthError::InvalidCredential.message(), "Hashes are not equal.");
    assert_eq!(AuthError::MalformedToken.message(), "The token cannot be read.");
    assert_eq!(AuthError::UnknownToken.message(), "There is no such tokens.");
    assert_eq!(AuthError::ExpiredToken.message(), "The token is expired.");
    assert_eq!(AuthError::StoreError.message(), "The tokens' storage failed.");
    assert_eq!(AuthError::Generation.message(), "The token cannot be generated.");
}

fn asked(step: Step) -> (StoreCommand, Pending) {
    match step {
        Step::Ask(command, pending) => (command, pending),
        Step::Finished(_) => panic!("the operation ended"),
    }
}

#[test]
fn two_log_ins_at_once_exceed_the_limit_by_one() {
    let mut store = MemoryStore::new();
    let digest = hash_password(b"p@ss", b"s");
    let key = get_user_tokens_list_name(42);
    store.lists.insert(key.clone(), vec!["b".to_string(), "a".to_string()]);

    let (first_command, first) = asked(log_in("p@ss".to_string(), b"s", &digest, 42));
    let (second_command, second) = asked(log_in("p@ss".to_string(), b"s", &digest, 42));
    let first_reply = store.send(first_command);
    let second_reply = store.send(second_command);
    let (first_command, first) = asked(resume(first, first_reply));
    let (second_command, second) = asked(resume(second, second_reply));
    assert!(matches!(first_command, StoreCommand::PushFront { .. }));
    assert!(matches!(second_command, StoreCommand::PushFront { .. }));
    let first_reply = store.send(first_command);
    let second_reply = store.send(second_command);
    assert!(matches!(resume(first, first_reply), Step::Finished(Ok(Outcome::LoggedIn(_)))));
    assert!(matches!(resume(second, second_reply), Step::Finished(Ok(Outcome::LoggedIn(_)))));
    assert_eq!(store.list(&key).len(), 4);

    assert!(store.issue(42, "p@ss", b"s", &digest).is_ok());
    assert_eq!(store.list(&key).len(), 3);
}

#[test]
fn validation_and_revocation_at_once_both_end_as_if_alone() {
    let mut store = MemoryStore::new();
    let key = get_user_tokens_list_name(42);
    let old = aged(42, "old", 40 * DAY);
    store.lists.insert(key.clone(), vec![old.clone()]);

    let (check_command, checking) = asked(check_token(&old, read(&old)));
    let (revoke_command, revoking) = asked(check_and_remove_token(&old, read(&old)));
    let check_reply = store.send(check_command);
    let revoke_reply = store.send(revoke_command);
    let (check_command, checking) = asked(resume(checking, check_reply));
    let (revoke_command, revoking) = asked(resume(revoking, revoke_reply));
    let revoke_reply = store.send(revoke_command);
    assert!(store.list(&key).is_empty());
    let check_reply = store.send(check_command);
    assert!(store.list(&key).is_empty());
    assert!(matches!(resume(revoking, revoke_reply), Step::Finished(Ok(Outcome::Removed))));
    assert_eq!(error_of(resume(checking, check_reply)), Some(AuthError::ExpiredToken));
}

#[test]
fn another_writing_of_a_stored_token_is_unknown() {
    let stored = "{\"user_id\":42,\"token_str\":\"x\",\"birth\":5}".to_string();
    let writings = [
        "{\"user_id\": 42,\"token_str\":\"x\",\"birth\":5}",
        " {\"user_id\":42,\"token_str\":\"x\",\"birth\":5}",
        "{\"user_id\":42,\"token_str\":\"x\",\"birth\":5} ",
        "{\"token_str\":\"x\",\"user_id\":42,\"birth\":5}",
        "{\"birth\":5,\"token_str\":\"x\",\"user_id\":42}",
        "{\"user_id\":42,\"token_str\":\"\\u0078\",\"birth\":5}",
        "{\n  \"user_id\": 42,\n  \"token_str\": \"x\",\n  \"birth\": 5\n}",
    ];
    for wire in writings {
        let mut store = MemoryStore::new();
        let key = get_user_tokens_list_name(42);
        store.lists.insert(key.clone(), vec![stored.clone()]);
        let token = read(wire).unwrap_or_else(|| panic!("{} was not read", wire));
        assert_eq!(token.user_id, 42);
        assert_eq!(token.token_str(), "x");
        assert_eq!(token.birth(), 5);

        assert_eq!(store.revoke(wire), Err(AuthError::UnknownToken));
        assert_eq!(store.list(&key), vec![stored.clone()]);
        assert_eq!(store.validate(wire), Err(AuthError::UnknownToken));
        assert_eq!(store.list(&key), vec![stored.clone()]);
        assert_eq!(store.sent, 2);
    }
}

#[test]
fn presented_string_is_looked_up_as_it_stands() {
    let wire = "{ \"birth\": 5, \"user_id\": 9, \"token_str\": \"x\" }".to_string();
    for first in [check_token(&wire, read(&wire)), check_and_remove_token(&wire, read(&wire))] {
        match first {
            Step::Ask(StoreCommand::FindPosition { key, item }, _) => {
                assert_eq!(key, "user_tokens:id9");
                assert_eq!(item, wire);
            }
            _ => panic!("another step"),
        }
    }
}

#[test]
fn stored_writing_is_found_whatever_its_spacing() {
    let mut store = MemoryStore::new();
    let key = get_user_tokens_list_name(9);
    let wire = format!("{{ \"birth\": {}, \"user_id\": 9, \"token_str\": \"x\" }}", unix_now());
    store.lists.insert(key.clone(), vec![wire.clone()]);
    assert_eq!(store.validate(&wire), Ok(9));
    assert_eq!(store.revoke(&wire), Ok(()));
    assert!(store.list(&key).is_empty());
}
