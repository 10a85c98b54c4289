//! Properties of the credential operations that hold for all inputs, proved
//! over the same spec functions the operations' contracts use.

use crate::error::CredentialError;
use crate::hasher::{digest_of, hex_upper, is_upper_hex_char, lemma_hex_upper_chars, sha3_256_of};
use crate::service::{login_outcome, register_outcome};
use crate::store::{names_of, unique_names};
use crate::validator::{all_alphanumeric, MIN_LENGTH};
use vstd::prelude::*;

verus! {

/// The collection and the results after registering each `(username,
/// password)` of `requests` in turn. Registrations are serialised by the
/// service, so any interleaving of concurrent requests is one such order.
pub open spec fn register_all(
    accounts: Seq<(Seq<char>, Seq<char>)>,
    requests: Seq<(Seq<char>, Seq<char>)>,
) -> (Seq<(Seq<char>, Seq<char>)>, Seq<Result<(), CredentialError>>)
    decreases requests.len(),
{
    if requests.len() == 0 {
        (accounts, Seq::empty())
    } else {
        let prev = register_all(accounts, requests.drop_last());
        let step = register_outcome(prev.0, requests.last().0, requests.last().1);
        (step.0, prev.1.push(step.1))
    }
}

/// A username that passes the character and length rules.
pub open spec fn valid_username(username: Seq<char>) -> bool {
    username.len() >= MIN_LENGTH && all_alphanumeric(username)
}

/// Registering keeps usernames unique.
pub proof fn lemma_register_keeps_unique(
    accounts: Seq<(Seq<char>, Seq<char>)>,
    username: Seq<char>,
    password: Seq<char>,
)
    requires
        unique_names(accounts),
    ensures
        unique_names(register_outcome(accounts, username, password).0),
{
    crate::store::lemma_append_keeps_unique(accounts, (username, digest_of(password)));
}

/// Registering a new, valid username succeeds, and a login with the same
/// username and password afterwards succeeds.
pub proof fn lemma_register_then_login(
    accounts: Seq<(Seq<char>, Seq<char>)>,
    username: Seq<char>,
    password: Seq<char>,
)
    requires
        unique_names(accounts),
        valid_username(username),
        password.len() >= MIN_LENGTH,
        !names_of(accounts).contains(username),
    ensures
        register_outcome(accounts, username, password).1 == Ok::<(), CredentialError>(()),
        login_outcome(register_outcome(accounts, username, password).0, username, digest_of(password))
            == Ok::<(), CredentialError>(()),
{
    let next = register_outcome(accounts, username, password).0;
    assert(next[accounts.len() as int] == (username, digest_of(password)));
}

/// Registrations only ever append: every account present before a run of
/// registrations is still in place, at the same position, afterwards.
pub proof fn lemma_register_all_keeps_accounts(
    accounts: Seq<(Seq<char>, Seq<char>)>,
    requests: Seq<(Seq<char>, Seq<char>)>,
)
    ensures
        register_all(accounts, requests).0.len() >= accounts.len(),
        forall|i: int|
            0 <= i < accounts.len() ==> #[trigger] register_all(accounts, requests).0[i]
                == accounts[i],
    decreases requests.len(),
{
    if requests.len() > 0 {
        lemma_register_all_keeps_accounts(accounts, requests.drop_last());
        let prev = register_all(accounts, requests.drop_last()).0;
        let next = register_all(accounts, requests).0;
        assert forall|i: int| 0 <= i < accounts.len() implies #[trigger] next[i] == accounts[i] by {
            assert(prev[i] == accounts[i]);
        }
    }
}

/// After a successful registration, a login with the same username and
/// password succeeds, whatever registrations come after it.
pub proof fn lemma_login_after_later_registrations(
    accounts: Seq<(Seq<char>, Seq<char>)>,
    username: Seq<char>,
    password: Seq<char>,
    later: Seq<(Seq<char>, Seq<char>)>,
)
    requires
        register_outcome(accounts, username, password).1 is Ok,
    ensures
        login_outcome(
            register_all(register_outcome(accounts, username, password).0, later).0,
            username,
            digest_of(password),
        ) == Ok::<(), CredentialError>(()),
{
    let after = register_outcome(accounts, username, password).0;
    let k = accounts.len() as int;
    assert(after[k] == (username, digest_of(password)));
    lemma_register_all_keeps_accounts(after, later);
    let last = register_all(after, later).0;
    assert(last[k] == after[k]);
}

/// Registering one username with several passwords, one after another:
/// the first registration succeeds, every later one is refused with
/// `UsernameTaken`, and only the first account is stored.
pub proof fn lemma_same_username_once(
    accounts: Seq<(Seq<char>, Seq<char>)>,
    username: Seq<char>,
    passwords: Seq<Seq<char>>,
)
    requires
        unique_names(accounts),
        valid_username(username),
        !names_of(accounts).contains(username),
        passwords.len() >= 1,
        forall|k: int| 0 <= k < passwords.len() ==> (#[trigger] passwords[k]).len() >= MIN_LENGTH,
    ensures
        ({
            let out = register_all(
                accounts,
                passwords.map_values(|p: Seq<char>| (username, p)),
            );
            &&& out.1.len() == passwords.len()
            &&& out.1[0] == Ok::<(), CredentialError>(())
            &&& forall|k: int|
                1 <= k < passwords.len() ==> #[trigger] out.1[k] == Err::<(), CredentialError>(
                    CredentialError::UsernameTaken,
                )
            &&& out.0 == accounts.push((username, digest_of(passwords[0])))
        }),
    decreases passwords.len(),
{
    let reqs = passwords.map_values(|p: Seq<char>| (username, p));
    let n = passwords.len();
    assert(reqs.last() == (username, passwords[n - 1]));
    if n == 1 {
        assert(reqs.drop_last() =~= Seq::<(Seq<char>, Seq<char>)>::empty());
        assert(passwords[0].len() >= MIN_LENGTH);
        assert(register_all(accounts, reqs.drop_last()) == (
            accounts,
            Seq::<Result<(), CredentialError>>::empty(),
        ));
        assert(register_all(accounts, reqs).1 =~= seq![Ok::<(), CredentialError>(())]);
    } else {
        let shorter = passwords.drop_last();
        lemma_same_username_once(accounts, username, shorter);
        assert(reqs.drop_last() =~= shorter.map_values(|p: Seq<char>| (username, p)));
        let prev = register_all(accounts, reqs.drop_last());
        let pushed = accounts.push((username, digest_of(passwords[0])));
        assert(prev.0 == pushed);
        assert(names_of(pushed)[accounts.len() as int] == username);
        assert(names_of(pushed).contains(username));
        assert(shorter[0] == passwords[0]);
        assert(passwords[n - 1].len() >= MIN_LENGTH);
        let out = register_all(accounts, reqs);
        assert(out.1 == prev.1.push(Err::<(), CredentialError>(CredentialError::UsernameTaken)));
        assert forall|k: int| 1 <= k < n implies #[trigger] out.1[k] == Err::<(), CredentialError>(
            CredentialError::UsernameTaken,
        ) by {
            if k < n - 1 {
                assert(out.1[k] == prev.1[k]);
                assert(shorter[k].len() >= MIN_LENGTH);
            }
        }
    }
}

/// Registering distinct valid usernames one after another into an empty
/// collection: every registration succeeds, and the collection ends up
/// holding exactly one account per request, in order, with unique names.
pub proof fn lemma_distinct_usernames_all_stored(requests: Seq<(Seq<char>, Seq<char>)>)
    requires
        forall|k: int|
            0 <= k < requests.len() ==> valid_username(#[trigger] requests[k].0)
                && requests[k].1.len() >= MIN_LENGTH,
        forall|i: int, j: int|
            0 <= i < j < requests.len() ==> #[trigger] requests[i].0 != #[trigger] requests[j].0,
    ensures
        ({
            let out = register_all(Seq::empty(), requests);
            &&& out.1.len() == requests.len()
            &&& forall|k: int|
                0 <= k < requests.len() ==> #[trigger] out.1[k] == Ok::<(), CredentialError>(())
            &&& out.0 == requests.map_values(
                |r: (Seq<char>, Seq<char>)| (r.0, digest_of(r.1)),
            )
            &&& unique_names(out.0)
        }),
    decreases requests.len(),
{
    let empty = Seq::<(Seq<char>, Seq<char>)>::empty();
    if requests.len() > 0 {
        let shorter = requests.drop_last();
        let n = requests.len();
        assert forall|k: int|
            0 <= k < shorter.len() implies valid_username(#[trigger] shorter[k].0)
            && shorter[k].1.len() >= MIN_LENGTH by {
            assert(shorter[k] == requests[k]);
        }
        assert forall|i: int, j: int|
            0 <= i < j < shorter.len() implies #[trigger] shorter[i].0 != #[trigger] shorter[j].0 by {
            assert(shorter[i] == requests[i] && shorter[j] == requests[j]);
        }
        lemma_distinct_usernames_all_stored(shorter);
        let prev = register_all(empty, shorter);
        let last = requests[n - 1];
        assert(valid_username(last.0) && last.1.len() >= MIN_LENGTH);
        assert(!names_of(prev.0).contains(last.0)) by {
            if names_of(prev.0).contains(last.0) {
                let i = choose|i: int| 0 <= i < names_of(prev.0).len() && names_of(prev.0)[i] == last.0;
                assert(prev.0[i].0 == shorter[i].0);
                assert(requests[i].0 != requests[n - 1].0);
            }
        }
        lemma_register_keeps_unique(prev.0, last.0, last.1);
        assert(register_all(empty, requests).0 =~= requests.map_values(
            |r: (Seq<char>, Seq<char>)| (r.0, digest_of(r.1)),
        ));
    }
}

/// Digests are a function of the password: equal passwords have equal
/// digests.
pub proof fn lemma_digest_deterministic(a: Seq<char>, b: Seq<char>)
    requires
        a == b,
    ensures
        digest_of(a) == digest_of(b),
{
}

/// A digest consists of upper-case hexadecimal digits only, so the account
/// stored by a registration never holds a password that has any other
/// character in place of its digest.
pub proof fn lemma_stored_digest_is_not_plaintext(
    accounts: Seq<(Seq<char>, Seq<char>)>,
    username: Seq<char>,
    password: Seq<char>,
)
    requires
        register_outcome(accounts, username, password).1 is Ok,
        exists|i: int| 0 <= i < password.len() && !is_upper_hex_char(#[trigger] password[i]),
    ensures
        register_outcome(accounts, username, password).0.last() == (username, digest_of(password)),
        register_outcome(accounts, username, password).0.last().1 != password,
{
    lemma_hex_upper_chars(sha3_256_of(password));
    let i = choose|i: int| 0 <= i < password.len() && !is_upper_hex_char(#[trigger] password[i]);
    if digest_of(password) == password {
        assert(is_upper_hex_char(hex_upper(sha3_256_of(password))[i]));
    }
}

/// A login with an unknown username and a login with a known username but a
/// wrong password fail with the same error.
pub proof fn lemma_login_failures_are_uniform(
    accounts: Seq<(Seq<char>, Seq<char>)>,
    username: Seq<char>,
    password: Seq<char>,
)
    requires
        unique_names(accounts),
    ensures
        !names_of(accounts).contains(username) ==> login_outcome(
            accounts,
            username,
            digest_of(password),
        ) == Err::<(), CredentialError>(CredentialError::AuthenticationFailed),
        (forall|i: int|
            0 <= i < accounts.len() && #[trigger] accounts[i].0 == username ==> accounts[i].1
                != digest_of(password)) ==> login_outcome(accounts, username, digest_of(password))
            == Err::<(), CredentialError>(CredentialError::AuthenticationFailed),
{
    if exists|i: int| 0 <= i < accounts.len() && accounts[i] == (username, digest_of(password)) {
        let i = choose|i: int|
            0 <= i < accounts.len() && accounts[i] == (username, digest_of(password));
        assert(names_of(accounts)[i] == username);
    }
}

} // verus!
