use credential_store::error::CredentialError;
use credential_store::hasher::{digest, encode_hex_upper};
use credential_store::service::{define_error_when_loging_in, CredentialService};
use credential_store::store::{Account, AccountStore};
use credential_store::validator::{check_rules, validate};

fn names(list: &[&str]) -> Vec<String> {
    list.iter().map(|s| s.to_string()).collect()
}

fn account(username: &str, digest_text: &str) -> Account {
    Account { username: username.to_string(), password_digest: digest_text.to_string() }
}

#[test]
fn validate_empty_fields_first() {
    assert_eq!(validate("", "", &names(&[])), Err(CredentialError::EmptyFields));
    assert_eq!(validate("alice", "", &names(&[])), Err(CredentialError::EmptyFields));
    assert_eq!(validate("", "longenough", &names(&[])), Err(CredentialError::EmptyFields));
    // An empty password wins over a bad username character.
    assert_eq!(validate("a!", "", &names(&[])), Err(CredentialError::EmptyFields));
}

#[test]
fn validate_invalid_character() {
    assert_eq!(validate("ab!", "longenough", &names(&[])), Err(CredentialError::InvalidCharacter));
    assert_eq!(validate("john doe", "longenough", &names(&[])), Err(CredentialError::InvalidCharacter));
    // The character rule comes before the length rule.
    assert_eq!(validate("a-b", "x", &names(&[])), Err(CredentialError::InvalidCharacter));
}

#[test]
fn validate_invalid_length() {
    assert_eq!(validate("ab", "longenough", &names(&[])), Err(CredentialError::InvalidLength));
    assert_eq!(validate("alice", "1234", &names(&[])), Err(CredentialError::InvalidLength));
    assert_eq!(validate("abcd", "longenough", &names(&["abcd"])), Err(CredentialError::InvalidLength));
}

#[test]
fn validate_username_taken() {
    assert_eq!(
        validate("existing", "longenough", &names(&["other", "existing"])),
        Err(CredentialError::UsernameTaken)
    );
    // Exact, case-sensitive match.
    assert_eq!(validate("Existing", "longenough", &names(&["existing"])), Ok(()));
}

#[test]
fn validate_accepts_valid_candidate() {
    assert_eq!(validate("alice", "12345", &names(&["bob12"])), Ok(()));
    assert_eq!(validate("User2024", "secret-password", &names(&[])), Ok(()));
}

#[test]
fn rule_order_through_register() {
    let mut svc = CredentialService::new();
    assert_eq!(svc.register("", ""), Err(CredentialError::EmptyFields));
    assert_eq!(svc.register("ab!", "longenough"), Err(CredentialError::InvalidCharacter));
    assert_eq!(svc.register("ab", "longenough"), Err(CredentialError::InvalidLength));
    assert_eq!(svc.register("existing", "longenough"), Ok(()));
    assert_eq!(svc.register("existing", "longenough"), Err(CredentialError::UsernameTaken));
    assert_eq!(svc.list().len(), 1);
}

#[test]
fn hex_encoding_is_upper_case() {
    assert_eq!(encode_hex_upper(&[0xAB, 0x01, 0x00, 0xff]), "AB0100FF");
    assert_eq!(encode_hex_upper(&[]), "");
}

#[test]
fn digest_known_values() {
    assert_eq!(digest(""), "A7FFC6F8BF1ED76651C14756A061D662F580FF4DE43B49FA82D80A4B80F8434A");
    assert_eq!(digest("abc"), "3A985DA74FE225B2045C172D6BD390BD855F086E3E9D525B46BFE24511431532");
}

#[test]
fn digest_is_deterministic() {
    assert_eq!(digest("secret"), digest("secret"));
    assert_ne!(digest("secret"), digest("Secret"));
    let d = digest("secret");
    assert_eq!(d.len(), 64);
    assert!(d.chars().all(|c| c.is_ascii_digit() || ('A'..='F').contains(&c)));
    assert_ne!(d, "secret");
}

#[test]
fn stored_account_holds_digest_not_plaintext() {
    let mut svc = CredentialService::new();
    assert_eq!(svc.register("alice", "secret123"), Ok(()));
    let stored = &svc.list()[0];
    assert_eq!(stored.username, "alice");
    assert_eq!(stored.password_digest, digest("secret123"));
    assert_ne!(stored.password_digest, "secret123");
}

#[test]
fn register_then_login() {
    let mut svc = CredentialService::new();
    assert_eq!(svc.register("alice", "password1"), Ok(()));
    assert_eq!(svc.login("alice", "password1"), Ok(()));
}

#[test]
fn login_failures_are_identical() {
    let mut svc = CredentialService::new();
    assert_eq!(svc.register("alice", "password1"), Ok(()));
    let wrong_password = svc.login("alice", "password2");
    let unknown_user = svc.login("mallory", "password1");
    assert_eq!(wrong_password, Err(CredentialError::AuthenticationFailed));
    assert_eq!(unknown_user, Err(CredentialError::AuthenticationFailed));
    assert_eq!(wrong_password, unknown_user);
    assert_eq!(
        wrong_password.unwrap_err().message(),
        unknown_user.unwrap_err().message()
    );
}

#[test]
fn login_decision_compares_digests() {
    let mut svc = CredentialService::new();
    assert_eq!(svc.register("alice", "password1"), Ok(()));
    let d = digest("password1");
    assert_eq!(define_error_when_loging_in(svc.store(), "alice", &d), Ok(()));
    // The plaintext itself is not accepted in place of the digest.
    assert_eq!(define_error_when_loging_in(svc.store(), "alice", "password1"), Err(CredentialError::AuthenticationFailed));
}

#[test]
fn same_username_registered_once() {
    let mut svc = CredentialService::new();
    let passwords = ["first1", "second2", "third3", "fourth4", "fifth5"];
    let results: Vec<_> = passwords.iter().map(|p| svc.register("shared", p)).collect();
    assert_eq!(results[0], Ok(()));
    for r in &results[1..] {
        assert_eq!(*r, Err(CredentialError::UsernameTaken));
    }
    assert_eq!(svc.list().len(), 1);
    assert_eq!(svc.login("shared", "first1"), Ok(()));
    assert_eq!(svc.login("shared", "second2"), Err(CredentialError::AuthenticationFailed));
}

#[test]
fn distinct_usernames_all_stored() {
    let mut svc = CredentialService::new();
    let n = 20;
    for i in 0..n {
        let name = format!("user{:02}", i);
        assert_eq!(svc.register(&name, "password"), Ok(()));
    }
    let list = svc.list();
    assert_eq!(list.len(), n);
    for (i, a) in list.iter().enumerate() {
        assert_eq!(a.username, format!("user{:02}", i));
    }
    let mut seen: Vec<&String> = list.iter().map(|a| &a.username).collect();
    seen.sort();
    seen.dedup();
    assert_eq!(seen.len(), n);
}

#[test]
fn failed_write_keeps_collection() {
    let mut svc = CredentialService::new();
    assert_eq!(svc.register("alice", "password1"), Ok(()));
    let staged = svc.stage_register("bobby", "password2").unwrap();
    // Staging changes nothing by itself.
    assert_eq!(svc.list().len(), 1);
    assert_eq!(staged.len(), 2);
    assert_eq!(svc.commit(staged, false), Err(CredentialError::StorageUnavailable));
    assert_eq!(svc.list().len(), 1);
    assert_eq!(svc.list()[0].username, "alice");
    assert_eq!(svc.login("bobby", "password2"), Err(CredentialError::AuthenticationFailed));
}

#[test]
fn successful_write_takes_staged_collection() {
    let mut svc = CredentialService::new();
    let staged = svc.stage_register("bobby", "password2").unwrap();
    assert_eq!(svc.commit(staged, true), Ok(()));
    assert_eq!(svc.list().len(), 1);
    assert_eq!(svc.login("bobby", "password2"), Ok(()));
}

#[test]
fn stage_register_reports_validation_errors() {
    let mut svc = CredentialService::new();
    assert_eq!(svc.register("alice", "password1"), Ok(()));
    assert!(matches!(svc.stage_register("alice", "password9"), Err(CredentialError::UsernameTaken)));
    assert!(matches!(svc.stage_register("a", "password9"), Err(CredentialError::InvalidLength)));
}

#[test]
fn store_append_rechecks_uniqueness() {
    let mut store = AccountStore::new();
    assert_eq!(store.append(account("alice", "D1")), Ok(()));
    assert_eq!(store.append(account("alice", "D2")), Err(CredentialError::UsernameTaken));
    assert_eq!(store.len(), 1);
    assert_eq!(store.accounts()[0].password_digest, "D1");
    assert_eq!(store.append(account("bobby", "D3")), Ok(()));
    assert_eq!(store.usernames(), names(&["alice", "bobby"]));
}

#[test]
fn store_find_by_username() {
    let mut store = AccountStore::new();
    assert_eq!(store.append(account("alice", "D1")), Ok(()));
    assert_eq!(store.append(account("bobby", "D2")), Ok(()));
    let found = store.find_by_username("bobby").unwrap();
    assert_eq!(found.username, "bobby");
    assert_eq!(found.password_digest, "D2");
    assert!(store.find_by_username("Bobby").is_none());
    assert!(store.contains_username("alice"));
    assert!(!store.contains_username("carol"));
}

#[test]
fn loaded_collection_with_duplicates_is_refused() {
    let dup = vec![account("alice", "D1"), account("bobby", "D2"), account("alice", "D3")];
    assert!(matches!(AccountStore::from_accounts(dup), Err(CredentialError::StorageUnavailable)));
    let ok = vec![account("alice", "D1"), account("bobby", "D2")];
    let store = AccountStore::from_accounts(ok).unwrap();
    assert_eq!(store.len(), 2);
    let svc = CredentialService::from_store(store);
    assert_eq!(define_error_when_loging_in(svc.store(), "bobby", "D2"), Ok(()));
    assert!(AccountStore::from_accounts(Vec::new()).is_ok());
}

#[test]
fn error_messages_and_kinds() {
    assert_eq!(CredentialError::EmptyFields.message(), "Cannot pass empty username nor password.");
    assert_eq!(CredentialError::InvalidCharacter.message(), "Special characters used in username.");
    assert_eq!(
        CredentialError::InvalidLength.message(),
        "Either password and username must be longer than 5 characters."
    );
    assert_eq!(CredentialError::UsernameTaken.message(), "Username is taken.");
    assert!(CredentialError::UsernameTaken.is_validation());
    assert!(!CredentialError::AuthenticationFailed.is_validation());
    assert!(!CredentialError::StorageUnavailable.is_validation());
}

#[test]
fn check_rules_uses_given_character_class() {
    assert_eq!(check_rules("alice", "password", false, &names(&[])), Err(CredentialError::InvalidCharacter));
    assert_eq!(check_rules("", "password", false, &names(&[])), Err(CredentialError::EmptyFields));
    assert_eq!(check_rules("ab", "password", true, &names(&[])), Err(CredentialError::InvalidLength));
    assert_eq!(check_rules("alice", "password", true, &names(&["alice"])), Err(CredentialError::UsernameTaken));
    assert_eq!(check_rules("alice", "password", true, &names(&["bobby"])), Ok(()));
}

#[test]
fn unicode_letters_count_as_characters() {
    // Four alphanumeric characters in six bytes are too short; five suffice.
    assert_eq!(validate("\u{e9}l\u{e8}v", "passw", &names(&[])), Err(CredentialError::InvalidLength));
    assert_eq!(validate("\u{e9}l\u{e8}ve", "passw", &names(&[])), Ok(()));
}

#[test]
fn short_username_reports_length_message() {
    let r = validate("ab", "longenough", &names(&[]));
    assert_eq!(r, Err(CredentialError::InvalidLength));
    assert_eq!(r.unwrap_err().message(), "Either password and username must be longer than 5 characters.");
}

#[test]
fn short_password_rejected_before_hashing() {
    let mut svc = CredentialService::new();
    let r = svc.register("abcde", "ab");
    assert_eq!(r, Err(CredentialError::InvalidLength));
    assert_eq!(r.unwrap_err().message(), "Either password and username must be longer than 5 characters.");
    assert_eq!(svc.list().len(), 0);
}

#[test]
fn login_survives_later_registrations() {
    let mut svc = CredentialService::new();
    assert_eq!(svc.register("alice", "password1"), Ok(()));
    for i in 0..10 {
        let name = format!("other{}", i);
        assert_eq!(svc.register(&name, "password9"), Ok(()));
        assert_eq!(svc.login("alice", "password1"), Ok(()));
    }
}
