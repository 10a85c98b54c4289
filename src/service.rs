//! The operations a request handler calls: register, login and list, built
//! from the validator, the hasher and the account collection.

use crate::error::CredentialError;
use crate::hasher::{digest, digest_of};
use crate::store::{names_of, unique_names, Account, AccountStore};
use crate::validator::{validate, validation_outcome};
use vstd::prelude::*;

verus! {

/// The collection after a registration attempt, and its result: on any
/// validation failure the collection is kept; otherwise the account with the
/// digest of the password is appended.
pub open spec fn register_outcome(
    accounts: Seq<(Seq<char>, Seq<char>)>,
    username: Seq<char>,
    password: Seq<char>,
) -> (Seq<(Seq<char>, Seq<char>)>, Result<(), CredentialError>) {
    match validation_outcome(username, password, names_of(accounts)) {
        Err(e) => (accounts, Err(e)),
        Ok(_) => (accounts.push((username, digest_of(password))), Ok(())),
    }
}

/// A login with `username` and a password whose digest is `digest` succeeds
/// exactly when a stored account holds both; every failure is the same.
pub open spec fn login_outcome(
    accounts: Seq<(Seq<char>, Seq<char>)>,
    username: Seq<char>,
    digest: Seq<char>,
) -> Result<(), CredentialError> {
    if exists|i: int| 0 <= i < accounts.len() && accounts[i] == (username, digest) {
        Ok(())
    } else {
        Err(CredentialError::AuthenticationFailed)
    }
}

/// Validates, hashes and appends in one step on `store`.
fn register_in(store: &mut AccountStore, username: &str, password: &str) -> (r: Result<
    (),
    CredentialError,
>)
    requires
        old(store).wf(),
    ensures
        final(store).wf(),
        (final(store)@, r) == register_outcome(old(store)@, username@, password@),
{
    let names = store.usernames();
    assert(names@.map_values(|s: String| s@) == crate::validator::views_of(names@));
    match validate(username, password, &names) {
        Err(e) => Err(e),
        Ok(()) => {
            let d = digest(password);
            let account = Account { username: username.to_owned(), password_digest: d };
            store.append(account)
        },
    }
}

/// Decides a login whose password has already been turned into `digest`:
/// `AuthenticationFailed` both for an unknown username and for a digest that
/// differs from the stored one.
pub fn define_error_when_loging_in(store: &AccountStore, username: &str, digest: &str) -> (r: Result<(), CredentialError>)
    requires
        store.wf(),
    ensures
        r == login_outcome(store@, username@, digest@),
{
    let wanted: String = digest.to_owned();
    match store.find_by_username(username) {
        None => {
            proof {
                if exists|i: int| 0 <= i < store@.len() && store@[i] == (username@, digest@) {
                    let i = choose|i: int| 0 <= i < store@.len() && store@[i] == (username@, digest@);
                    assert(names_of(store@)[i] == username@);
                }
            }
            Err(CredentialError::AuthenticationFailed)
        },
        Some(account) => {
            let ghost a = account@;
            let ghost k = choose|k: int| 0 <= k < store@.len() && store@[k] == a;
            if account.password_digest.eq(&wanted) {
                assert(store@[k] == (username@, digest@));
                Ok(())
            } else {
                proof {
                    assert forall|i: int| 0 <= i < store@.len() implies store@[i] != (username@, digest@) by {
                        if i != k && store@[i].0 == username@ {
                            if i < k {
                                assert(store@[i].0 != store@[k].0);
                            } else {
                                assert(store@[k].0 != store@[i].0);
                            }
                        }
                    }
                }
                Err(CredentialError::AuthenticationFailed)
            }
        },
    }
}

/// The credential service: owns the account collection, so that the
/// uniqueness check and the append of one registration form a single step.
pub struct CredentialService {
    store: AccountStore,
}

impl View for CredentialService {
    type V = Seq<(Seq<char>, Seq<char>)>;

    closed spec fn view(&self) -> Seq<(Seq<char>, Seq<char>)> {
        self.store@
    }
}

impl CredentialService {
    /// Well-formed: usernames are unique.
    pub open spec fn wf(&self) -> bool {
        unique_names(self@)
    }

    /// A service over an empty collection.
    pub fn new() -> (r: CredentialService)
        ensures
            r@ == Seq::<(Seq<char>, Seq<char>)>::empty(),
            r.wf(),
    {
        CredentialService { store: AccountStore::new() }
    }

    /// A service over a loaded collection.
    pub fn from_store(store: AccountStore) -> (r: CredentialService)
        requires
            store.wf(),
        ensures
            r@ == store@,
            r.wf(),
    {
        CredentialService { store }
    }

    /// The collection.
    pub fn store(&self) -> (r: &AccountStore)
        ensures
            r@ == self@,
    {
        &self.store
    }

    /// Every stored account, digests included, in order.
    pub fn list(&self) -> (r: &Vec<Account>)
        ensures
            crate::store::views_of_accounts(r@) == self@,
    {
        self.store.accounts()
    }

    /// Registers a new account, or reports the first validation rule that
    /// fails; on failure nothing changes.
    pub fn register(&mut self, username: &str, password: &str) -> (r: Result<(), CredentialError>)
        requires
            old(self).wf(),
        ensures
            final(self).wf(),
            (final(self)@, r) == register_outcome(old(self)@, username@, password@),
    {
        register_in(&mut self.store, username, password)
    }

    /// The collection a registration would lead to, without changing this
    /// one: what is to be persisted before `commit`.
    pub fn stage_register(&self, username: &str, password: &str) -> (r: Result<
        AccountStore,
        CredentialError,
    >)
        requires
            self.wf(),
        ensures
            r is Ok ==> r->Ok_0.wf() && register_outcome(self@, username@, password@) == (
            r->Ok_0@, Ok::<(), CredentialError>(())),
            r is Err ==> register_outcome(self@, username@, password@) == (
            self@, Err::<(), CredentialError>(r->Err_0)),
    {
        let mut next = self.store.duplicate();
        match register_in(&mut next, username, password) {
            Ok(()) => Ok(next),
            Err(e) => Err(e),
        }
    }

    /// Takes `staged` as the collection once it has been written; when the
    /// write failed the collection stays exactly as it was.
    pub fn commit(&mut self, staged: AccountStore, written: bool) -> (r: Result<(), CredentialError>)
        requires
            old(self).wf(),
            staged.wf(),
        ensures
            final(self).wf(),
            written ==> final(self)@ == staged@ && r is Ok,
            !written ==> final(self)@ == old(self)@ && r == Err::<(), CredentialError>(
                CredentialError::StorageUnavailable,
            ),
    {
        if written {
            self.store = staged;
            Ok(())
        } else {
            Err(CredentialError::StorageUnavailable)
        }
    }

    /// Checks a login: the password is hashed and compared with the digest
    /// stored for the username; an unknown username and a wrong password
    /// give the same error.
    pub fn login(&self, username: &str, password: &str) -> (r: Result<(), CredentialError>)
        requires
            self.wf(),
        ensures
            r == login_outcome(self@, username@, digest_of(password@)),
    {
        let d = digest(password);
        define_error_when_loging_in(&self.store, username, d.as_str())
    }
}

} // verus!
