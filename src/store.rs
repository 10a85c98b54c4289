//! The authoritative account collection: an ordered list of accounts in which
//! no two share a username. It is the unit of persistence, and every change
//! to it goes through `append`, which re-checks uniqueness itself.

use crate::error::CredentialError;
use vstd::prelude::*;

verus! {

/// A persisted account: a username and the digest of its password.
pub struct Account {
    pub username: String,
    pub password_digest: String,
}

impl View for Account {
    /// `(username, password digest)`.
    type V = (Seq<char>, Seq<char>);

    open spec fn view(&self) -> (Seq<char>, Seq<char>) {
        (self.username@, self.password_digest@)
    }
}

impl Account {
    /// A field-by-field copy.
    pub fn duplicate(&self) -> (r: Account)
        ensures
            r@ == self@,
    {
        Account { username: self.username.clone(), password_digest: self.password_digest.clone() }
    }
}

/// The usernames of a collection, in order.
pub open spec fn names_of(accounts: Seq<(Seq<char>, Seq<char>)>) -> Seq<Seq<char>> {
    accounts.map_values(|a: (Seq<char>, Seq<char>)| a.0)
}

/// No two accounts of the collection share a username.
pub open spec fn unique_names(accounts: Seq<(Seq<char>, Seq<char>)>) -> bool {
    forall|i: int, j: int|
        0 <= i < j < accounts.len() ==> #[trigger] accounts[i].0 != #[trigger] accounts[j].0
}

/// The account views of a list of accounts.
pub open spec fn views_of_accounts(accounts: Seq<Account>) -> Seq<(Seq<char>, Seq<char>)> {
    accounts.map_values(|a: Account| a@)
}

/// The result of appending `account` to a collection: refused, and the
/// collection kept, when its username is taken.
pub open spec fn append_outcome(
    accounts: Seq<(Seq<char>, Seq<char>)>,
    account: (Seq<char>, Seq<char>),
) -> (Seq<(Seq<char>, Seq<char>)>, Result<(), CredentialError>) {
    if names_of(accounts).contains(account.0) {
        (accounts, Err(CredentialError::UsernameTaken))
    } else {
        (accounts.push(account), Ok(()))
    }
}

/// Appending an account with a fresh username keeps the usernames unique.
pub proof fn lemma_append_keeps_unique(
    accounts: Seq<(Seq<char>, Seq<char>)>,
    account: (Seq<char>, Seq<char>),
)
    requires
        unique_names(accounts),
    ensures
        unique_names(append_outcome(accounts, account).0),
{
    if !names_of(accounts).contains(account.0) {
        let next = accounts.push(account);
        assert forall|i: int, j: int| 0 <= i < j < next.len() implies #[trigger] next[i].0
            != #[trigger] next[j].0 by {
            if j == accounts.len() {
                assert(names_of(accounts)[i] == accounts[i].0);
            } else {
                assert(next[i] == accounts[i] && next[j] == accounts[j]);
            }
        }
    }
}

/// The ordered account collection.
pub struct AccountStore {
    accounts: Vec<Account>,
}

impl View for AccountStore {
    type V = Seq<(Seq<char>, Seq<char>)>;

    closed spec fn view(&self) -> Seq<(Seq<char>, Seq<char>)> {
        views_of_accounts(self.accounts@)
    }
}

impl AccountStore {
    /// Well-formed: usernames are unique.
    pub open spec fn wf(&self) -> bool {
        unique_names(self@)
    }

    /// An empty collection.
    pub fn new() -> (r: AccountStore)
        ensures
            r@ == Seq::<(Seq<char>, Seq<char>)>::empty(),
            r.wf(),
    {
        let r = AccountStore { accounts: Vec::new() };
        assert(r@ =~= Seq::<(Seq<char>, Seq<char>)>::empty());
        r
    }

    /// Takes over a loaded collection; a collection in which two accounts
    /// share a username is not a valid document and is refused.
    pub fn from_accounts(accounts: Vec<Account>) -> (r: Result<AccountStore, CredentialError>)
        ensures
            r is Ok <==> unique_names(views_of_accounts(accounts@)),
            r is Ok ==> r->Ok_0@ == views_of_accounts(accounts@) && r->Ok_0.wf(),
            r is Err ==> r->Err_0 == CredentialError::StorageUnavailable,
    {
        let ghost v = views_of_accounts(accounts@);
        let n = accounts.len();
        let mut j: usize = 1;
        while j < n
            invariant
                n == accounts@.len(),
                v == views_of_accounts(accounts@),
                1 <= j || n == 0,
                forall|a: int, b: int| 0 <= a < b < j && b < n ==> #[trigger] v[a].0 != #[trigger] v[b].0,
            decreases n - j,
        {
            let mut i: usize = 0;
            while i < j
                invariant
                    n == accounts@.len(),
                    v == views_of_accounts(accounts@),
                    i <= j < n,
                    forall|a: int, b: int| 0 <= a < b < j ==> #[trigger] v[a].0 != #[trigger] v[b].0,
                    forall|a: int| 0 <= a < i ==> #[trigger] v[a].0 != v[j as int].0,
                decreases j - i,
            {
                if accounts[i].username.eq(&accounts[j].username) {
                    assert(v[i as int].0 == v[j as int].0);
                    return Err(CredentialError::StorageUnavailable);
                }
                i = i + 1;
            }
            j = j + 1;
        }
        assert(v.len() == n);
        Ok(AccountStore { accounts })
    }

    /// The number of accounts.
    pub fn len(&self) -> (r: usize)
        ensures
            r == self@.len(),
    {
        self.accounts.len()
    }

    /// The stored accounts, in the order they were added.
    pub fn accounts(&self) -> (r: &Vec<Account>)
        ensures
            views_of_accounts(r@) == self@,
    {
        &self.accounts
    }

    /// The usernames, in order.
    pub fn usernames(&self) -> (r: Vec<String>)
        ensures
            r@.map_values(|s: String| s@) == names_of(self@),
    {
        let mut out: Vec<String> = Vec::new();
        let mut i: usize = 0;
        while i < self.accounts.len()
            invariant
                i <= self.accounts@.len(),
                out@.len() == i,
                forall|k: int| 0 <= k < i ==> #[trigger] out@[k]@ == self.accounts@[k].username@,
            decreases self.accounts@.len() - i,
        {
            out.push(self.accounts[i].username.clone());
            i = i + 1;
        }
        assert(out@.map_values(|s: String| s@) =~= names_of(self@));
        out
    }

    /// The account whose username is exactly `name`, if there is one.
    pub fn find_by_username(&self, name: &str) -> (r: Option<Account>)
        requires
            self.wf(),
        ensures
            r is None <==> !names_of(self@).contains(name@),
            r is Some ==> self@.contains(r->Some_0@) && r->Some_0.username@ == name@,
    {
        let wanted: String = name.to_owned();
        let mut i: usize = 0;
        while i < self.accounts.len()
            invariant
                wanted@ == name@,
                i <= self.accounts@.len(),
                forall|k: int| 0 <= k < i ==> #[trigger] self.accounts@[k].username@ != name@,
            decreases self.accounts@.len() - i,
        {
            if self.accounts[i].username.eq(&wanted) {
                let found = self.accounts[i].duplicate();
                assert(self@[i as int] == found@);
                assert(names_of(self@)[i as int] == name@);
                return Some(found);
            }
            i = i + 1;
        }
        proof {
            if names_of(self@).contains(name@) {
                let k = choose|k: int| 0 <= k < names_of(self@).len() && names_of(self@)[k] == name@;
                assert(self.accounts@[k].username@ == name@);
            }
        }
        None
    }

    /// Whether an account with username `name` exists.
    pub fn contains_username(&self, name: &str) -> (r: bool)
        requires
            self.wf(),
        ensures
            r == names_of(self@).contains(name@),
    {
        self.find_by_username(name).is_some()
    }

    /// Adds `account` at the end unless its username is already taken; a
    /// refused append leaves the collection as it was.
    pub fn append(&mut self, account: Account) -> (r: Result<(), CredentialError>)
        requires
            old(self).wf(),
        ensures
            final(self).wf(),
            (final(self)@, r) == append_outcome(old(self)@, account@),
    {
        proof {
            lemma_append_keeps_unique(self@, account@);
        }
        if self.contains_username(account.username.as_str()) {
            return Err(CredentialError::UsernameTaken);
        }
        self.accounts.push(account);
        assert(self@ =~= append_outcome(old(self)@, account@).0);
        Ok(())
    }

    /// A copy of the whole collection.
    pub fn duplicate(&self) -> (r: AccountStore)
        ensures
            r@ == self@,
    {
        let mut out: Vec<Account> = Vec::new();
        let mut i: usize = 0;
        while i < self.accounts.len()
            invariant
                i <= self.accounts@.len(),
                out@.len() == i,
                forall|k: int| 0 <= k < i ==> #[trigger] out@[k]@ == self.accounts@[k]@,
            decreases self.accounts@.len() - i,
        {
            out.push(self.accounts[i].duplicate());
            i = i + 1;
        }
        let r = AccountStore { accounts: out };
        assert(r@ =~= self@);
        r
    }
}

} // verus!
