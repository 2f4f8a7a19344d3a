//! The credential store: accounts with unique user names, registration,
//! login and promotion.

use vstd::prelude::*;
use crate::auth::{argon2_verifies, hash_password, verify_password, AuthError, User};
use crate::text::equal;

verus! {

/// What an account holds.
pub struct Account {
    pub id: Option<int>,
    pub username: Seq<char>,
    pub password_hash: Seq<char>,
    pub role: Seq<char>,
}

impl User {
    /// What the account holds.
    pub open spec fn view(&self) -> Account {
        Account {
            id: match self.id {
                Some(v) => Some(v as int),
                None => None,
            },
            username: self.username@,
            password_hash: self.password_hash@,
            role: self.role@,
        }
    }
}

/// The account of the given user name, if there is one.
pub open spec fn lookup(rows: Seq<Account>, username: Seq<char>) -> Option<Account>
    decreases rows.len(),
{
    if rows.len() == 0 {
        None
    } else if rows[0].username == username {
        Some(rows[0])
    } else {
        lookup(rows.drop_first(), username)
    }
}

/// How many of the accounts are administrators.
pub open spec fn admin_rows(rows: Seq<Account>) -> nat
    decreases rows.len(),
{
    if rows.len() == 0 {
        0
    } else {
        admin_rows(rows.drop_last()) + if rows.last().role == "admin"@ {
            1nat
        } else {
            0nat
        }
    }
}

/// The store's constraints: ids are given out from 1 in the order of
/// arrival, and no user name occurs twice.
pub open spec fn rows_wf(rows: Seq<Account>) -> bool {
    &&& rows.len() <= i32::MAX
    &&& forall|i: int| 0 <= i < rows.len() ==> (#[trigger] rows[i]).id == Some(i + 1)
    &&& forall|i: int, j: int|
        0 <= i < j < rows.len() ==> (#[trigger] rows[i]).username != (#[trigger] rows[j]).username
}

/// Whether `after` is `before` with the role of the account `id`, if there
/// is one, set to `role`, and nothing else changed.
pub open spec fn promoted(before: Seq<Account>, after: Seq<Account>, id: int, role: Seq<char>) -> bool {
    &&& after.len() == before.len()
    &&& forall|i: int|
        0 <= i < before.len() ==> #[trigger] after[i] == (if before[i].id == Some(id) {
            Account {
                id: before[i].id,
                username: before[i].username,
                password_hash: before[i].password_hash,
                role,
            }
        } else {
            before[i]
        })
}

/// Whether `after` is `before` with one more account, made for `username`
/// with the role `role` and a hash of `password`, under the next id.
pub open spec fn registered(
    before: Seq<Account>,
    after: Seq<Account>,
    username: Seq<char>,
    password: Seq<char>,
    role: Seq<char>,
) -> bool {
    &&& after.len() == before.len() + 1
    &&& after.drop_last() == before
    &&& after.last().id == Some(before.len() as int + 1)
    &&& after.last().username == username
    &&& after.last().role == role
    &&& argon2_verifies(after.last().password_hash, password)
}

/// What a login attempt comes to, given the account that the store found
/// for the user name.  An unknown name and a wrong password give the same
/// answer.
pub open spec fn login_outcome(found: Option<Account>, password: Seq<char>) -> Result<
    Account,
    AuthError,
> {
    match found {
        Some(a) => if argon2_verifies(a.password_hash, password) {
            Ok(a)
        } else {
            Err(AuthError::Unauthorized)
        },
        None => Err(AuthError::Unauthorized),
    }
}

/// Whether `r` is the result that `want` calls for.
pub open spec fn gives_user(r: Result<User, AuthError>, want: Result<Account, AuthError>) -> bool {
    match want {
        Ok(a) => r matches Ok(u) && u@ == a,
        Err(e) => r matches Err(got) && got == e,
    }
}

/// A copy of `user`.
pub fn copy_user(user: &User) -> (r: User)
    ensures
        r@ == user@,
{
    User {
        id: user.id,
        username: user.username.clone(),
        password_hash: user.password_hash.clone(),
        role: user.role.clone(),
    }
}

/// Decides a login, given what the store found for the user name.
pub fn check_login(found: Option<User>, password: &str) -> (r: Result<User, AuthError>)
    ensures
        gives_user(
            r,
            login_outcome(
                match found {
                    Some(u) => Some(u@),
                    None => None,
                },
                password@,
            ),
        ),
{
    match found {
        Some(user) => {
            if verify_password(user.password_hash.as_str(), password) {
                Ok(user)
            } else {
                Err(AuthError::Unauthorized)
            }
        },
        None => Err(AuthError::Unauthorized),
    }
}

/// Decides whether a user name is free, given what the store found for it.
pub fn check_available(found: &Option<User>) -> (r: Result<(), AuthError>)
    ensures
        found is None ==> r is Ok,
        found is Some ==> r == Err::<(), AuthError>(AuthError::Conflict),
{
    match found {
        Some(_) => Err(AuthError::Conflict),
        None => Ok(()),
    }
}

/// The account to store for a new user: the password hashed, no id yet.
pub fn new_account(username: &str, password: &str, role: &str) -> (r: Result<User, AuthError>)
    ensures
        r matches Ok(u) ==> u@.id is None && u@.username == username@ && u@.role == role@
            && argon2_verifies(u@.password_hash, password@),
        r matches Err(e) ==> e == AuthError::Internal,
{
    match hash_password(password) {
        Ok(password_hash) => Ok(
            User { id: None, username: username.to_owned(), password_hash, role: role.to_owned() },
        ),
        Err(e) => Err(e),
    }
}

/// The accounts, in the order in which they were created.
pub struct CredentialStore {
    users: Vec<User>,
}

impl CredentialStore {
    /// The accounts, oldest first.
    pub closed spec fn view(&self) -> Seq<Account> {
        Seq::new(self.users@.len(), |i: int| self.users@[i]@)
    }

    /// The store's constraints hold.
    pub open spec fn wf(&self) -> bool {
        rows_wf(self@)
    }

    /// A store without accounts.
    pub fn new() -> (r: CredentialStore)
        ensures
            r.wf(),
            r@.len() == 0,
    {
        CredentialStore { users: Vec::new() }
    }

    /// The number of accounts.
    pub fn len(&self) -> (n: usize)
        ensures
            n == self@.len(),
    {
        self.users.len()
    }

    /// The number of administrators.
    pub fn admin_count(&self) -> (n: usize)
        ensures
            n == admin_rows(self@),
    {
        let mut n: usize = 0;
        let mut i: usize = 0;
        proof {
            assert(self@.subrange(0, 0) =~= Seq::empty());
        }
        while i < self.users.len()
            invariant
                i <= self.users.len(),
                n <= i,
                n == admin_rows(self@.subrange(0, i as int)),
            decreases self.users.len() - i,
        {
            if equal(self.users[i].role.as_str(), "admin") {
                n += 1;
            }
            i += 1;
            proof {
                assert(self@.subrange(0, i as int).drop_last() =~= self@.subrange(0, i - 1));
            }
        }
        proof {
            assert(self@.subrange(0, self@.len() as int) =~= self@);
        }
        n
    }

    /// A copy of every account, oldest first.
    pub fn list(&self) -> (r: Vec<User>)
        ensures
            r@.len() == self@.len(),
            forall|i: int| 0 <= i < r@.len() ==> (#[trigger] r@[i])@ == self@[i],
    {
        let mut out: Vec<User> = Vec::new();
        let mut i: usize = 0;
        while i < self.users.len()
            invariant
                i <= self.users.len(),
                out@.len() == i,
                forall|j: int| 0 <= j < i ==> (#[trigger] out@[j])@ == self@[j],
            decreases self.users.len() - i,
        {
            out.push(copy_user(&self.users[i]));
            i += 1;
        }
        out
    }

    /// Stores a new account with the given hash and role.  The user name
    /// must be free and an id must be left.
    pub fn enroll(&mut self, username: &str, password_hash: String, role: &str) -> (r: Result<
        User,
        AuthError,
    >)
        requires
            old(self).wf(),
        ensures
            final(self).wf(),
            lookup(old(self)@, username@) is Some ==> r == Err::<User, AuthError>(
                AuthError::Conflict,
            ),
            lookup(old(self)@, username@) is None && old(self)@.len() >= i32::MAX ==> r == Err::<
                User,
                AuthError,
            >(AuthError::Internal),
            lookup(old(self)@, username@) is None && old(self)@.len() < i32::MAX ==> r is Ok,
            r matches Ok(u) ==> u@ == (Account {
                id: Some(old(self)@.len() as int + 1),
                username: username@,
                password_hash: password_hash@,
                role: role@,
            }) && final(self)@ == old(self)@.push(u@),
            r is Err ==> final(self)@ == old(self)@,
    {
        let mut user = User {
            id: None,
            username: username.to_owned(),
            password_hash,
            role: role.to_owned(),
        };
        match user.insert(self) {
            Ok(()) => Ok(user),
            Err(e) => Err(e),
        }
    }

    /// Registers an account with the default role, `user`.
    pub fn register(&mut self, username: &str, password: &str) -> (r: Result<User, AuthError>)
        requires
            old(self).wf(),
        ensures
            final(self).wf(),
            lookup(old(self)@, username@) is Some ==> r == Err::<User, AuthError>(
                AuthError::Conflict,
            ),
            lookup(old(self)@, username@) is None ==> !(r matches Err(AuthError::Conflict)),
            r matches Err(e) ==> (e == AuthError::Conflict || e == AuthError::Internal),
            r matches Ok(u) ==> u@.id == Some(old(self)@.len() as int + 1) && u@.username == username@
                && u@.role == "user"@ && argon2_verifies(u@.password_hash, password@) && final(self)@ == old(self)@.push(
                u@,
            ),
            r is Err ==> final(self)@ == old(self)@,
    {
        self.register_as(username, password, "user")
    }

    /// Registers an account with the given role: refuses a user name that is
    /// taken, hashes the password, stores the account.
    pub fn register_as(&mut self, username: &str, password: &str, role: &str) -> (r: Result<
        User,
        AuthError,
    >)
        requires
            old(self).wf(),
        ensures
            final(self).wf(),
            lookup(old(self)@, username@) is Some ==> r == Err::<User, AuthError>(
                AuthError::Conflict,
            ),
            lookup(old(self)@, username@) is None ==> !(r matches Err(AuthError::Conflict)),
            r matches Err(e) ==> (e == AuthError::Conflict || e == AuthError::Internal),
            r matches Ok(u) ==> u@.id == Some(old(self)@.len() as int + 1) && u@.username == username@
                && u@.role == role@ && argon2_verifies(u@.password_hash, password@) && final(self)@ == old(self)@.push(
                u@,
            ),
            r is Err ==> final(self)@ == old(self)@,
    {
        let found = User::find_by_username(self, username);
        match check_available(&found) {
            Ok(()) => {},
            Err(e) => { return Err(e); },
        }
        let password_hash = match hash_password(password) {
            Ok(h) => h,
            Err(e) => { return Err(e); },
        };
        self.enroll(username, password_hash, role)
    }

    /// Checks a user name and password.  Whatever is wrong, the answer is
    /// `Unauthorized`.
    pub fn authenticate(&self, username: &str, password: &str) -> (r: Result<User, AuthError>)
        ensures
            gives_user(r, login_outcome(lookup(self@, username@), password@)),
    {
        check_login(User::find_by_username(self, username), password)
    }

    /// Gives the account `id` the role `role`; no account of that id is no
    /// error, and nothing changes then.
    pub fn promote(&mut self, id: i32, role: &str)
        requires
            old(self).wf(),
        ensures
            final(self).wf(),
            promoted(old(self)@, final(self)@, id as int, role@),
    {
        if id < 1 || id as usize > self.users.len() {
            return ;
        }
        let at: usize = (id - 1) as usize;
        let ghost before = self@;
        let mut user = copy_user(&self.users[at]);
        user.role = role.to_owned();
        self.users.set(at, user);
        proof {
            assert forall|i: int| 0 <= i < self@.len() implies (#[trigger] self@[i]).id == Some(
                i + 1,
            ) by {
                assert(before[i].id == Some(i + 1));
            }
            assert forall|i: int, j: int| 0 <= i < j < self@.len() implies (#[trigger] self@[i]).username
                != (#[trigger] self@[j]).username by {
                assert(before[i].username != before[j].username);
                assert(self@[i].username == before[i].username);
                assert(self@[j].username == before[j].username);
            }
        }
    }
}

impl User {
    /// Stores this account and gives it its id: one more than the number of
    /// accounts there are.  A user name that is taken is a conflict.
    pub fn insert(&mut self, store: &mut CredentialStore) -> (r: Result<(), AuthError>)
        requires
            old(store).wf(),
        ensures
            final(store).wf(),
            lookup(old(store)@, old(self)@.username) is Some ==> r == Err::<(), AuthError>(
                AuthError::Conflict,
            ),
            lookup(old(store)@, old(self)@.username) is None && old(store)@.len() >= i32::MAX
                ==> r == Err::<(), AuthError>(AuthError::Internal),
            lookup(old(store)@, old(self)@.username) is None && old(store)@.len() < i32::MAX
                ==> r is Ok,
            r is Ok ==> final(self)@ == (Account {
                id: Some(old(store)@.len() as int + 1),
                username: old(self)@.username,
                password_hash: old(self)@.password_hash,
                role: old(self)@.role,
            }) && final(store)@ == old(store)@.push(final(self)@),
            r is Err ==> final(store)@ == old(store)@ && final(self)@ == old(self)@,
    {
        let found = User::find_by_username(store, self.username.as_str());
        if found.is_some() {
            return Err(AuthError::Conflict);
        }
        let n: usize = store.users.len();
        if n >= 2147483647 {
            return Err(AuthError::Internal);
        }
        self.id = Some((n + 1) as i32);
        let ghost before = store@;
        store.users.push(copy_user(self));
        proof {
            assert(store@ =~= before.push(self@));
            lemma_lookup_none(before, self@.username);
        }
        Ok(())
    }

    /// The account of the given user name, if there is one.
    pub fn find_by_username(store: &CredentialStore, username: &str) -> (r: Option<User>)
        ensures
            match lookup(store@, username@) {
                Some(a) => r matches Some(u) && u@ == a,
                None => r is None,
            },
    {
        let mut i: usize = 0;
        proof {
            assert(store@.skip(0) =~= store@);
        }
        while i < store.users.len()
            invariant
                i <= store.users.len(),
                lookup(store@, username@) == lookup(store@.skip(i as int), username@),
            decreases store.users.len() - i,
        {
            if equal(store.users[i].username.as_str(), username) {
                proof {
                    assert(store@.skip(i as int)[0] == store@[i as int]);
                }
                return Some(copy_user(&store.users[i]));
            }
            proof {
                assert(store@.skip(i as int)[0] == store@[i as int]);
                assert(store@.skip(i as int).drop_first() =~= store@.skip(i + 1));
            }
            i += 1;
        }
        None
    }
}

/// Where no account has the user name, none of the rows has it.
pub proof fn lemma_lookup_none(rows: Seq<Account>, username: Seq<char>)
    requires
        lookup(rows, username) is None,
    ensures
        forall|i: int| 0 <= i < rows.len() ==> (#[trigger] rows[i]).username != username,
    decreases rows.len(),
{
    if rows.len() > 0 {
        lemma_lookup_none(rows.drop_first(), username);
        assert forall|i: int| 0 <= i < rows.len() implies (#[trigger] rows[i]).username
            != username by {
            if i > 0 {
                assert(rows.drop_first()[i - 1] == rows[i]);
            }
        }
    }
}

/// The account found for a user name is one of the rows.
pub proof fn lemma_lookup_member(rows: Seq<Account>, username: Seq<char>)
    requires
        lookup(rows, username) is Some,
    ensures
        exists|i: int| 0 <= i < rows.len() && #[trigger] rows[i] == lookup(rows, username)->0,
        lookup(rows, username)->0.username == username,
    decreases rows.len(),
{
    if rows[0].username == username {
        assert(rows[0] == lookup(rows, username)->0);
    } else {
        lemma_lookup_member(rows.drop_first(), username);
        let i = choose|i: int|
            0 <= i < rows.drop_first().len() && #[trigger] rows.drop_first()[i] == lookup(
                rows.drop_first(),
                username,
            )->0;
        assert(rows[i + 1] == lookup(rows, username)->0);
    }
}

/// An account that is appended under a free user name is the one found for
/// that name.
pub proof fn lemma_lookup_pushed(rows: Seq<Account>, a: Account)
    requires
        lookup(rows, a.username) is None,
    ensures
        lookup(rows.push(a), a.username) == Some(a),
    decreases rows.len(),
{
    if rows.len() > 0 {
        lemma_lookup_pushed(rows.drop_first(), a);
        assert(rows.push(a).drop_first() =~= rows.drop_first().push(a));
    }
}

/// Register, then log in: once an account is stored under a free user name
/// with a hash of its password, a login with that name and password succeeds
/// and yields the account that registration made, with the same id.
pub proof fn registered_account_logs_in(
    rows: Seq<Account>,
    account: Account,
    password: Seq<char>,
)
    requires
        lookup(rows, account.username) is None,
        argon2_verifies(account.password_hash, password),
    ensures
        login_outcome(lookup(rows.push(account), account.username), password) == Ok::<
            Account,
            AuthError,
        >(account),
{
    lemma_lookup_pushed(rows, account);
}

/// A login under a user name that no account has and a login with a wrong
/// password end alike.
pub proof fn failed_logins_look_alike(
    rows: Seq<Account>,
    unknown: Seq<char>,
    known: Seq<char>,
    password: Seq<char>,
    wrong: Seq<char>,
)
    requires
        lookup(rows, unknown) is None,
        lookup(rows, known) matches Some(a) && !argon2_verifies(a.password_hash, wrong),
    ensures
        login_outcome(lookup(rows, unknown), password) == login_outcome(
            lookup(rows, known),
            wrong,
        ),
        login_outcome(lookup(rows, unknown), password) == Err::<Account, AuthError>(
            AuthError::Unauthorized,
        ),
{
}

} // verus!
