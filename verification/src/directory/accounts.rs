//! User accounts with Argon2id-hashed passwords.

use vstd::prelude::*;

use argon2::password_hash::{PasswordHash, PasswordHasher, PasswordVerifier, SaltString};
use argon2::Argon2;
use rand_core::OsRng;

use crate::text::utf8_len;

verus! {

/// Errors of the account store.
#[derive(Debug)]
pub enum AccountError {
    NotFound(String),
    AlreadyExists(String),
    WrongPassword,
    Hash(String),
    Io(std::io::Error),
    Parse(serde_json::Error),
}

#[verifier::external_type_specification]
#[verifier::external_body]
pub struct ExSerdeJsonError(serde_json::Error);

#[verifier::external_type_specification]
#[verifier::external_body]
pub struct ExSaltString(SaltString);

// ---------------------------------------------------------------------------
// Argon2 (argon2 / password-hash)
// ---------------------------------------------------------------------------

/// What `PasswordHash::new` reports of a PHC hash string: nothing when it
/// parses, else the text of its error.
pub uninterp spec fn phc_parse_error(hash: Seq<char>) -> Option<Seq<char>>;

/// Whether `Argon2::default().verify_password` accepts `password` (its UTF-8
/// bytes) against the parsed PHC hash string `hash`.
pub uninterp spec fn argon2_verifies(password: Seq<char>, hash: Seq<char>) -> bool;

/// Whether `salt` is one `SaltString::generate` makes: 16 random bytes in
/// unpadded B64, which Argon2 accepts as a salt (8 to 64 bytes).
pub uninterp spec fn salt_generated(salt: SaltString) -> bool;

/// `SaltString::generate` with the operating system's generator. Which
/// bytes it draws is not stated.
#[verifier::external_body]
fn random_salt() -> (salt: SaltString)
    ensures
        salt_generated(salt),
{
    SaltString::generate(&mut OsRng)
}

/// The PHC identifier of the Argon2id algorithm, which `Argon2::default()` uses.
pub open spec fn argon2id_phc_prefix() -> Seq<char> {
    "$argon2id$"@
}

/// Whether `hash` is a PHC string of the Argon2id algorithm.
pub open spec fn is_argon2id_phc(hash: Seq<char>) -> bool {
    hash.len() >= 10 && hash.take(10) == argon2id_phc_prefix()
}

/// `PasswordHasher::hash_password` of `Argon2::default()` (Argon2id), as a
/// PHC string. With a generated salt it fails exactly on a password longer
/// than `u32::MAX` bytes. A hash it makes is an Argon2id PHC string that
/// parses and verifies the password it was made from.
#[verifier::external_body]
fn argon2_hash(password: &str, salt: &SaltString) -> (r: Result<String, String>)
    requires
        salt_generated(*salt),
    ensures
        r is Ok <==> utf8_len(password@) <= 0xFFFF_FFFF,
        r matches Ok(h) ==> phc_parse_error(h@) is None && argon2_verifies(password@, h@)
            && is_argon2id_phc(h@),
{
    match Argon2::default().hash_password(password.as_bytes(), salt) {
        Ok(h) => Ok(h.to_string()),
        Err(e) => Err(e.to_string()),
    }
}

/// `PasswordHash::new`: `None` when `hash` parses, else the error's text.
#[verifier::external_body]
fn phc_parse(hash: &str) -> (r: Option<String>)
    ensures
        match phc_parse_error(hash@) {
            None => r is None,
            Some(msg) => r matches Some(m) && m@ == msg,
        },
{
    match PasswordHash::new(hash) {
        Ok(_) => None,
        Err(e) => Some(e.to_string()),
    }
}

/// `PasswordVerifier::verify_password` of `Argon2::default()` on a parsed hash.
#[verifier::external_body]
fn argon2_verify(password: &str, hash: &str) -> (ok: bool)
    requires
        phc_parse_error(hash@) is None,
    ensures
        ok == argon2_verifies(password@, hash@),
{
    match PasswordHash::new(hash) {
        Ok(parsed) => Argon2::default().verify_password(password.as_bytes(), &parsed).is_ok(),
        Err(_) => false,
    }
}

// ---------------------------------------------------------------------------
// Accounts
// ---------------------------------------------------------------------------

/// The abstract value of an account.
pub struct AccountView {
    pub username: Seq<char>,
    pub password_hash: Seq<char>,
    pub role: Seq<char>,
    pub revoked: bool,
}

/// One user account.
#[derive(Debug)]
pub struct Account {
    pub username: String,
    password_hash: String,
    pub role: String,
    pub revoked: bool,
}

impl View for Account {
    type V = AccountView;

    closed spec fn view(&self) -> AccountView {
        AccountView {
            username: self.username@,
            password_hash: self.password_hash@,
            role: self.role@,
            revoked: self.revoked,
        }
    }
}

impl Clone for Account {
    fn clone(&self) -> (a: Account)
        ensures
            a@ == self@,
    {
        Account {
            username: self.username.clone(),
            password_hash: self.password_hash.clone(),
            role: self.role.clone(),
            revoked: self.revoked,
        }
    }
}

impl Account {
    /// An account from its stored fields.
    pub fn from_parts(username: String, password_hash: String, role: String, revoked: bool) -> (a: Account)
        ensures
            a@ == (AccountView { username: username@, password_hash: password_hash@, role: role@, revoked }),
    {
        Account { username, password_hash, role, revoked }
    }

    /// The stored PHC hash string of the password.
    pub fn password_hash(&self) -> (h: &str)
        ensures
            h@ == self@.password_hash,
    {
        self.password_hash.as_str()
    }

    /// The user name.
    pub fn username(&self) -> (u: &str)
        ensures
            u@ == self@.username,
    {
        self.username.as_str()
    }

    /// The role label.
    pub fn role(&self) -> (r: &str)
        ensures
            r@ == self@.role,
    {
        self.role.as_str()
    }

    /// Whether the account was revoked.
    pub fn is_revoked(&self) -> (r: bool)
        ensures
            r == self@.revoked,
    {
        self.revoked
    }
}

/// How a login attempt against the account map `m` turns out.
pub enum LoginCheck {
    NotFound,
    Revoked,
    BadHash(Seq<char>),
    WrongPassword,
    Accepted(AccountView),
}

/// The outcome of checking `password` for `username` against `m`.
pub open spec fn login_check(m: Map<Seq<char>, AccountView>, username: Seq<char>, password: Seq<char>) -> LoginCheck {
    if !m.contains_key(username) {
        LoginCheck::NotFound
    } else if m[username].revoked {
        LoginCheck::Revoked
    } else {
        match phc_parse_error(m[username].password_hash) {
            Some(msg) => LoginCheck::BadHash(msg),
            None => if argon2_verifies(password, m[username].password_hash) {
                LoginCheck::Accepted(m[username])
            } else {
                LoginCheck::WrongPassword
            },
        }
    }
}

/// For an existing, unrevoked account whose hash parses, the check accepts
/// exactly the passwords Argon2 verifies against that hash: any other
/// password is a wrong password, and an accepted one gives that account.
pub proof fn lemma_only_verified_passwords_accepted(
    m: Map<Seq<char>, AccountView>,
    username: Seq<char>,
    password: Seq<char>,
)
    requires
        m.contains_key(username),
        !m[username].revoked,
        phc_parse_error(m[username].password_hash) is None,
    ensures
        !argon2_verifies(password, m[username].password_hash) ==> login_check(m, username, password)
            == LoginCheck::WrongPassword,
        argon2_verifies(password, m[username].password_hash) ==> login_check(m, username, password)
            == LoginCheck::Accepted(m[username]),
{
}

/// Whether `e` is the error a failed check `c` (for `username`) reports.
pub open spec fn check_error(c: LoginCheck, username: Seq<char>, e: AccountError) -> bool {
    match c {
        LoginCheck::NotFound => e matches AccountError::NotFound(n) && n@ == username,
        LoginCheck::Revoked => e is WrongPassword,
        LoginCheck::WrongPassword => e is WrongPassword,
        LoginCheck::BadHash(msg) => e matches AccountError::Hash(m) && m@ == msg,
        LoginCheck::Accepted(_) => false,
    }
}

/// Whether `r` is what checking a password reports for outcome `c`.
pub open spec fn verify_outcome(c: LoginCheck, username: Seq<char>, r: Result<&Account, AccountError>) -> bool {
    match c {
        LoginCheck::Accepted(a) => r matches Ok(acc) && acc@ == a,
        _ => r matches Err(e) && check_error(c, username, e),
    }
}

/// The values of a list of account references.
pub open spec fn account_views(r: Seq<&Account>) -> Seq<AccountView> {
    Seq::new(r.len(), |i: int| r[i]@)
}

/// The keys of a list of entries.
pub open spec fn entry_keys(entries: Seq<(String, Account)>) -> Seq<Seq<char>> {
    entries.map_values(|e: (String, Account)| e.0@)
}

/// The accounts a list of entries holds, by key.
pub open spec fn entries_map(entries: Seq<(String, Account)>) -> Map<Seq<char>, AccountView> {
    Map::new(
        |k: Seq<char>| entry_keys(entries).contains(k),
        |k: Seq<char>| entries[entry_keys(entries).index_of(k)].1@,
    )
}

/// The account database, keyed by user name.
#[derive(Debug)]
pub struct AccountStore {
    entries: Vec<(String, Account)>,
}

impl View for AccountStore {
    type V = Map<Seq<char>, AccountView>;

    closed spec fn view(&self) -> Map<Seq<char>, AccountView> {
        entries_map(self.entries@)
    }
}

impl Default for AccountStore {
    /// An empty store.
    fn default() -> (s: AccountStore)
        ensures
            s@ == Map::<Seq<char>, AccountView>::empty(),
    {
        AccountStore::new()
    }
}

proof fn lemma_entries_map_at(entries: Seq<(String, Account)>, i: int)
    requires
        entry_keys(entries).no_duplicates(),
        0 <= i < entries.len(),
    ensures
        entries_map(entries).contains_key(entries[i].0@),
        entries_map(entries)[entries[i].0@] == entries[i].1@,
{
    let ks = entry_keys(entries);
    assert(ks[i] == entries[i].0@);
    assert(ks.contains(entries[i].0@));
    ks.index_of_first_ensures(entries[i].0@);
    let j = ks.index_of(entries[i].0@);
    assert(ks[j] == ks[i]);
}

impl AccountStore {
    #[verifier::type_invariant]
    spec fn unique_keys(self) -> bool {
        entry_keys(self.entries@).no_duplicates()
    }

    /// An empty store.
    pub fn new() -> (s: AccountStore)
        ensures
            s@ == Map::<Seq<char>, AccountView>::empty(),
    {
        let s = AccountStore { entries: Vec::new() };
        assert(s@ =~= Map::<Seq<char>, AccountView>::empty());
        s
    }

    /// Position of the entry with key `username`, if any.
    fn find(&self, username: &str) -> (r: Option<usize>)
        ensures
            match r {
                Some(i) => i < self.entries@.len() && self.entries@[i as int].0@ == username@,
                None => !self@.contains_key(username@),
            },
    {
        let u = username.to_owned();
        let mut i: usize = 0;
        while i < self.entries.len()
            invariant
                0 <= i <= self.entries@.len(),
                u@ == username@,
                forall|j: int| 0 <= j < i ==> self.entries@[j].0@ != username@,
            decreases self.entries@.len() - i,
        {
            if self.entries[i].0 == u {
                return Some(i);
            }
            i = i + 1;
        }
        proof {
            let ks = entry_keys(self.entries@);
            if ks.contains(username@) {
                let j = choose|j: int| 0 <= j < ks.len() && ks[j] == username@;
                assert(self.entries@[j].0@ == username@);
            }
        }
        None
    }

    /// Creates an account; an existing name is refused and nothing changes.
    pub fn create_account(&mut self, username: &str, password: &str, role: &str) -> (r: Result<(), AccountError>)
        ensures
            old(self)@.contains_key(username@) ==> (r matches Err(AccountError::AlreadyExists(n)) && n@ == username@),
            r matches Err(AccountError::AlreadyExists(_)) ==> old(self)@.contains_key(username@),
            !old(self)@.contains_key(username@) && utf8_len(password@) <= 0xFFFF_FFFF ==> r is Ok,
            r matches Err(AccountError::Hash(_)) ==> utf8_len(password@) > 0xFFFF_FFFF,
            r is Err ==> final(self)@ == old(self)@,
            r is Err ==> (r matches Err(AccountError::AlreadyExists(_)) || r matches Err(AccountError::Hash(_))),
            r is Ok ==> !old(self)@.contains_key(username@) && exists|h: Seq<char>|
                phc_parse_error(h) is None && argon2_verifies(password@, h) && is_argon2id_phc(h)
                && final(self)@ == old(self)@.insert(username@, AccountView {
                    username: username@,
                    password_hash: h,
                    role: role@,
                    revoked: false,
                }),
    {
        if let Some(i) = self.find(username) {
            proof {
                let ks = entry_keys(self.entries@);
                assert(ks[i as int] == username@);
                assert(ks.contains(username@));
            }
            return Err(AccountError::AlreadyExists(username.to_owned()));
        }
        let salt = random_salt();
        let hash = match argon2_hash(password, &salt) {
            Ok(h) => h,
            Err(e) => {
                return Err(AccountError::Hash(e));
            },
        };
        let ghost h = hash@;
        let account = Account {
            username: username.to_owned(),
            password_hash: hash,
            role: role.to_owned(),
            revoked: false,
        };
        proof {
            use_type_invariant(&*self);
        }
        let ghost before = self.entries@;
        let mut entries = Vec::new();
        std::mem::swap(&mut entries, &mut self.entries);
        entries.push((username.to_owned(), account));
        proof {
            let ks = entry_keys(before);
            assert(entry_keys(entries@) =~= ks.push(username@));
            assert(!ks.contains(username@));
            assert(entry_keys(entries@).no_duplicates()) by {
                assert forall|i: int, j: int| 0 <= i < j < entry_keys(entries@).len() implies entry_keys(entries@)[i] != entry_keys(entries@)[j] by {
                    if j == ks.len() {
                        assert(entry_keys(entries@)[i] == ks[i]);
                    } else {
                        assert(entry_keys(entries@)[i] == ks[i]);
                        assert(entry_keys(entries@)[j] == ks[j]);
                    }
                }
            }
        }
        self.entries = entries;
        proof {
            let v = AccountView { username: username@, password_hash: h, role: role@, revoked: false };
            let ks = entry_keys(before);
            let nks = entry_keys(self.entries@);
            assert forall|k: Seq<char>| #[trigger] self@.contains_key(k) <==> old(self)@.insert(username@, v).contains_key(k) by {
                if nks.contains(k) {
                    let i = choose|i: int| 0 <= i < nks.len() && nks[i] == k;
                    if i < ks.len() {
                        assert(ks[i] == k);
                    }
                }
                if ks.contains(k) {
                    let i = choose|i: int| 0 <= i < ks.len() && ks[i] == k;
                    assert(nks[i] == k);
                }
                if k == username@ {
                    assert(nks[ks.len() as int] == k);
                }
            }
            assert forall|k: Seq<char>| #[trigger] self@.contains_key(k) implies self@[k] == old(self)@.insert(username@, v)[k] by {
                let i = choose|i: int| 0 <= i < nks.len() && nks[i] == k;
                lemma_entries_map_at(self.entries@, i);
                if i < ks.len() {
                    lemma_entries_map_at(before, i);
                } else {
                    assert(self.entries@[i].1@ == v);
                }
            }
            assert(self@ =~= old(self)@.insert(username@, v));
        }
        Ok(())
    }

    /// Marks an account revoked; an unknown name is `NotFound`.
    pub fn revoke(&mut self, username: &str) -> (r: Result<(), AccountError>)
        ensures
            !old(self)@.contains_key(username@) ==> (r matches Err(AccountError::NotFound(n)) && n@ == username@
                && final(self)@ == old(self)@),
            old(self)@.contains_key(username@) ==> r is Ok && final(self)@ == old(self)@.insert(
                username@,
                AccountView { revoked: true, ..old(self)@[username@] },
            ),
    {
        let i = match self.find(username) {
            Some(i) => i,
            None => {
                return Err(AccountError::NotFound(username.to_owned()));
            },
        };
        proof {
            use_type_invariant(&*self);
            lemma_entries_map_at(self.entries@, i as int);
        }
        let ghost before = self.entries@;
        let mut entries = Vec::new();
        std::mem::swap(&mut entries, &mut self.entries);
        let (key, account) = entries.remove(i);
        let Account { username: name, password_hash, role, revoked: _ } = account;
        let updated = Account { username: name, password_hash, role, revoked: true };
        entries.insert(i, (key, updated));
        proof {
            assert(entry_keys(entries@) =~= entry_keys(before));
        }
        self.entries = entries;
        proof {
            let v = AccountView { revoked: true, ..old(self)@[username@] };
            let ks = entry_keys(before);
            assert forall|k: Seq<char>| #[trigger] self@.contains_key(k) implies self@[k] == old(self)@.insert(username@, v)[k] by {
                let j = choose|j: int| 0 <= j < ks.len() && ks[j] == k;
                lemma_entries_map_at(self.entries@, j);
                lemma_entries_map_at(before, j);
                if j == i {
                    assert(self.entries@[j].1@ == v);
                } else {
                    assert(ks[j] != ks[i as int]);
                }
            }
            assert(self@.dom() =~= old(self)@.insert(username@, v).dom());
            assert(self@ =~= old(self)@.insert(username@, v));
        }
        Ok(())
    }

    /// Checks a login attempt. A missing account is `NotFound`; a revoked
    /// account fails as a wrong password does.
    pub fn verify_password(&self, username: &str, password: &str) -> (r: Result<&Account, AccountError>)
        ensures
            verify_outcome(login_check(self@, username@, password@), username@, r),
    {
        let i = match self.find(username) {
            Some(i) => i,
            None => {
                return Err(AccountError::NotFound(username.to_owned()));
            },
        };
        proof {
            use_type_invariant(self);
            lemma_entries_map_at(self.entries@, i as int);
        }
        let account = &self.entries[i].1;
        if account.revoked {
            return Err(AccountError::WrongPassword);
        }
        if let Some(msg) = phc_parse(account.password_hash.as_str()) {
            return Err(AccountError::Hash(msg));
        }
        if argon2_verify(password, account.password_hash.as_str()) {
            Ok(account)
        } else {
            Err(AccountError::WrongPassword)
        }
    }

    /// The stored entries: each key with its account.
    pub fn entries(&self) -> (r: &Vec<(String, Account)>)
        ensures
            entries_map(r@) == self@,
            entry_keys(r@).no_duplicates(),
    {
        proof {
            use_type_invariant(self);
        }
        &self.entries
    }

    /// Stores `account` under `key`, replacing what that key held.
    pub fn insert_entry(&mut self, key: String, account: Account)
        ensures
            final(self)@ == old(self)@.insert(key@, account@),
    {
        proof {
            use_type_invariant(&*self);
        }
        let ghost before = self.entries@;
        let ghost v = account@;
        let ghost k = key@;
        let found = self.find(key.as_str());
        let mut entries = Vec::new();
        std::mem::swap(&mut entries, &mut self.entries);
        match found {
            Some(i) => {
                let _ = entries.remove(i);
                entries.insert(i, (key, account));
                proof {
                    assert(entry_keys(entries@) =~= entry_keys(before));
                }
            },
            None => {
                entries.push((key, account));
                proof {
                    let ks = entry_keys(before);
                    assert(entry_keys(entries@) =~= ks.push(k));
                    assert(entry_keys(entries@).no_duplicates()) by {
                        assert forall|a: int, b: int| 0 <= a < b < entry_keys(entries@).len() implies entry_keys(entries@)[a] != entry_keys(entries@)[b] by {
                            assert(entry_keys(entries@)[a] == ks[a]);
                            if b < ks.len() {
                                assert(entry_keys(entries@)[b] == ks[b]);
                            } else {
                                assert(ks.contains(ks[a]));
                            }
                        }
                    }
                }
            },
        }
        self.entries = entries;
        proof {
            let ks = entry_keys(before);
            let nks = entry_keys(self.entries@);
            assert forall|x: Seq<char>| #[trigger] self@.contains_key(x) <==> old(self)@.insert(k, v).contains_key(x) by {
                if nks.contains(x) {
                    let i = choose|i: int| 0 <= i < nks.len() && nks[i] == x;
                    if i < ks.len() {
                        assert(ks[i] == x || x == k);
                    }
                }
                if ks.contains(x) {
                    let i = choose|i: int| 0 <= i < ks.len() && ks[i] == x;
                    assert(nks[i] == x);
                }
                if x == k {
                    match found {
                        Some(i) => { assert(nks[i as int] == x); },
                        None => { assert(nks[ks.len() as int] == x); },
                    }
                }
            }
            assert forall|x: Seq<char>| #[trigger] self@.contains_key(x) implies self@[x] == old(self)@.insert(k, v)[x] by {
                let i = choose|i: int| 0 <= i < nks.len() && nks[i] == x;
                lemma_entries_map_at(self.entries@, i);
                match found {
                    Some(idx) => {
                        if i == idx {
                            assert(self.entries@[i].1@ == v);
                            assert(x == k);
                        } else {
                            assert(self.entries@[i] == before[i]);
                            assert(ks[i] == x);
                            assert(ks[idx as int] == k);
                            assert(x != k);
                            lemma_entries_map_at(before, i);
                        }
                    },
                    None => {
                        if i == ks.len() {
                            assert(self.entries@[i].1@ == v);
                            assert(x == k);
                        } else {
                            assert(self.entries@[i] == before[i]);
                            assert(ks[i] == x);
                            assert(x != k);
                            lemma_entries_map_at(before, i);
                        }
                    },
                }
            }
            assert(self@ =~= old(self)@.insert(k, v));
        }
    }

    /// The keys of the store in the order it holds them: each key once.
    pub closed spec fn key_order(self) -> Seq<Seq<char>> {
        entry_keys(self.entries@)
    }

    /// Every account in the store, each once: the account under each key, in
    /// the store's key order.
    pub fn list(&self) -> (r: Vec<&Account>)
        ensures
            r@.len() == self@.dom().len(),
            account_views(r@).to_set() == self@.values(),
            self.key_order().no_duplicates(),
            self.key_order().to_set() == self@.dom(),
            r@.len() == self.key_order().len(),
            forall|i: int| 0 <= i < r@.len() ==> #[trigger] account_views(r@)[i] == self@[self.key_order()[i]],
    {
        proof {
            use_type_invariant(self);
        }
        let ghost ev = self.entries@.map_values(|e: (String, Account)| e.1@);
        let mut r: Vec<&Account> = Vec::new();
        let mut i: usize = 0;
        while i < self.entries.len()
            invariant
                0 <= i <= self.entries@.len(),
                ev == self.entries@.map_values(|e: (String, Account)| e.1@),
                account_views(r@) == ev.take(i as int),
            decreases self.entries@.len() - i,
        {
            let a = &self.entries[i].1;
            assert(ev.len() == self.entries@.len());
            assert(ev.take(i as int).len() == i);
            assert(r@.len() == i);
            assert(*a == self.entries@[i as int].1);
            assert(a@ == self.entries@[i as int].1@);
            r.push(a);
            assert(r@[i as int] == a);
            assert(r@[i as int]@ == ev[i as int]);
            assert(account_views(r@) =~= ev.take(i + 1));
            i = i + 1;
        }
        proof {
            let ks = entry_keys(self.entries@);
            assert(ev.take(i as int) =~= ev);
            assert forall|v: AccountView| #[trigger] ev.to_set().contains(v) <==> self@.values().contains(v) by {
                if ev.contains(v) {
                    let j = choose|j: int| 0 <= j < ev.len() && ev[j] == v;
                    lemma_entries_map_at(self.entries@, j);
                    assert(self@.contains_key(ks[j]) && self@[ks[j]] == v);
                }
                if self@.values().contains(v) {
                    let k = choose|k: Seq<char>| self@.contains_key(k) && self@[k] == v;
                    let j = choose|j: int| 0 <= j < ks.len() && ks[j] == k;
                    lemma_entries_map_at(self.entries@, j);
                    assert(ev[j] == v);
                }
            }
            assert(account_views(r@).to_set() =~= self@.values());
            ks.unique_seq_to_set();
            assert(self@.dom() =~= ks.to_set());
            assert forall|j: int| 0 <= j < r@.len() implies #[trigger] account_views(r@)[j] == self@[ks[j]] by {
                lemma_entries_map_at(self.entries@, j);
                assert(ks[j] == self.entries@[j].0@);
                assert(ev[j] == self.entries@[j].1@);
            }
        }
        r
    }

}

/// An account created with a password (its hash made by Argon2 from that
/// password) accepts a login with the same password.
pub proof fn lemma_created_account_accepts_its_password(
    m: Map<Seq<char>, AccountView>,
    username: Seq<char>,
    password: Seq<char>,
    hash: Seq<char>,
    role: Seq<char>,
)
    requires
        phc_parse_error(hash) is None,
        argon2_verifies(password, hash),
    ensures
        login_check(
            m.insert(username, AccountView { username, password_hash: hash, role, revoked: false }),
            username,
            password,
        ) == LoginCheck::Accepted(AccountView { username, password_hash: hash, role, revoked: false }),
{
}

/// A revoked account refuses every login, whatever the password.
pub proof fn lemma_revoked_account_refuses_login(
    m: Map<Seq<char>, AccountView>,
    username: Seq<char>,
    password: Seq<char>,
)
    requires
        m.contains_key(username),
    ensures
        login_check(m.insert(username, AccountView { revoked: true, ..m[username] }), username, password)
            == LoginCheck::Revoked,
{
}

/// A name that is not in the store is not found, whatever the password.
pub proof fn lemma_unknown_account_not_found(
    m: Map<Seq<char>, AccountView>,
    username: Seq<char>,
    password: Seq<char>,
)
    requires
        !m.contains_key(username),
    ensures
        login_check(m, username, password) == LoginCheck::NotFound,
{
}

}
