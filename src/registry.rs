//! The user registry and the resolution of a user's journal key.

use vstd::prelude::*;
use vstd::string::StrSliceExecFns;
use vstd::utf8::encode_utf8;

use crate::crypto::{
    decrypt_text, derive_key, derived_key, hmac_sha256_hex, hmac_sha256_hex_of, opened_text,
    url_b64_decode, url_b64_decode_of,
};

verus! {

/// One backup code of a user.
#[derive(Debug, Clone)]
pub struct BackupCode {
    /// Password record of the code, `$salt$hexhash`.
    pub password: String,
    /// Base64 salt for deriving the key that opens `enc_orig_password`.
    pub salt: String,
    /// Token holding the user's real password.
    pub enc_orig_password: String,
}

/// One user of the registry.
#[derive(Debug, Clone)]
pub struct UserEntry {
    pub username: String,
    pub user_id: String,
    /// Password record, `$salt$hexhash`.
    pub password: String,
    /// Base64 salt for deriving the key that opens `enc_enc_key`.
    pub salt: String,
    /// Token holding the journal key.
    pub enc_enc_key: String,
    pub backup_codes: Vec<BackupCode>,
}

/// A backup code as (password record, salt, token of the password).
pub type CodeView = (Seq<char>, Seq<char>, Seq<char>);

impl View for BackupCode {
    type V = CodeView;

    open spec fn view(&self) -> CodeView {
        (self.password@, self.salt@, self.enc_orig_password@)
    }
}

/// The views of a sequence of backup codes.
pub open spec fn codes_view(s: Seq<BackupCode>) -> Seq<CodeView> {
    s.map_values(|c: BackupCode| c@)
}

/// A user as (username, user id, password record, salt, key token, backup codes).
pub type UserView = (Seq<char>, Seq<char>, Seq<char>, Seq<char>, Seq<char>, Seq<CodeView>);

impl View for UserEntry {
    type V = UserView;

    open spec fn view(&self) -> UserView {
        (self.username@, self.user_id@, self.password@, self.salt@, self.enc_enc_key@, codes_view(self.backup_codes@))
    }
}

/// The views of a sequence of users.
pub open spec fn users_view(s: Seq<UserEntry>) -> Seq<UserView> {
    s.map_values(|u: UserEntry| u@)
}

/// Why a user's journal key could not be resolved.
#[derive(Debug, Clone, Copy, PartialEq, Eq)]
pub enum AuthError {
    UserNotFound,
    WrongSecret,
}

/// Index of the first `'$'` in `s` at or after `i`, or `s.len()`.
pub open spec fn next_dollar(s: Seq<char>, i: int) -> int
    decreases s.len() - i,
{
    if i < 0 || i >= s.len() {
        s.len() as int
    } else if s[i] == '$' {
        i
    } else {
        next_dollar(s, i + 1)
    }
}

proof fn lemma_next_dollar_range(s: Seq<char>, i: int)
    requires
        0 <= i <= s.len(),
    ensures
        i <= next_dollar(s, i) <= s.len(),
    decreases s.len() - i,
{
    if i < s.len() && s[i] != '$' {
        lemma_next_dollar_range(s, i + 1);
    }
}

/// The salt and the hash of a `$salt$hexhash` record: the second and third
/// `'$'`-separated fields. `None` when the record has fewer than three fields.
pub open spec fn record_parts(rec: Seq<char>) -> Option<(Seq<char>, Seq<char>)> {
    let a = next_dollar(rec, 0);
    let b = next_dollar(rec, a + 1);
    let c = next_dollar(rec, b + 1);
    if b < rec.len() {
        Some((rec.subrange(a + 1, b), rec.subrange(b + 1, c)))
    } else {
        None
    }
}

/// `secret` matches the password record `rec`.
pub open spec fn secret_matches(rec: Seq<char>, secret: Seq<char>) -> bool {
    match record_parts(rec) {
        Some((salt, hash)) => hmac_sha256_hex_of(encode_utf8(salt), encode_utf8(secret)) == hash,
        None => false,
    }
}

fn find_dollar(s: &str, from: usize) -> (r: usize)
    requires
        from <= s@.len(),
    ensures
        r == next_dollar(s@, from as int),
{
    let n = s.unicode_len();
    let mut i = from;
    while i < n
        invariant
            n == s@.len(),
            from <= i <= n,
            next_dollar(s@, from as int) == next_dollar(s@, i as int),
        decreases n - i,
    {
        if s.get_char(i) == '$' {
            return i;
        }
        i = i + 1;
    }
    i
}

/// Checks `password` against a `$salt$hexhash` record: the record's hash must
/// equal the HMAC-SHA256 of the password keyed by the record's salt.
pub fn password_valid(full_hash: &str, password: &str) -> (r: bool)
    ensures
        r == secret_matches(full_hash@, password@),
{
    let n = full_hash.unicode_len();
    let a = find_dollar(full_hash, 0);
    if a >= n {
        return false;
    }
    let b = find_dollar(full_hash, a + 1);
    if b >= n {
        return false;
    }
    let c = find_dollar(full_hash, b + 1);
    proof {
        lemma_next_dollar_range(full_hash@, 0);
        lemma_next_dollar_range(full_hash@, a + 1);
        lemma_next_dollar_range(full_hash@, b + 1);
    }
    let salt = full_hash.substring_char(a + 1, b);
    let hash = full_hash.substring_char(b + 1, c);
    let calculated = hmac_sha256_hex(salt.as_bytes(), password.as_bytes());
    calculated == hash.to_owned()
}

/// Index of the first user named `name` at or after `i`, or `reg.len()`.
pub open spec fn first_user_from(reg: Seq<UserEntry>, name: Seq<char>, i: int) -> int
    decreases reg.len() - i,
{
    if i < 0 || i >= reg.len() {
        reg.len() as int
    } else if reg[i].username@ == name {
        i
    } else {
        first_user_from(reg, name, i + 1)
    }
}

/// Index of the first backup code at or after `i` that `secret` matches, or
/// `codes.len()`.
pub open spec fn first_code_from(codes: Seq<BackupCode>, secret: Seq<char>, i: int) -> int
    decreases codes.len() - i,
{
    if i < 0 || i >= codes.len() {
        codes.len() as int
    } else if secret_matches(codes[i].password@, secret) {
        i
    } else {
        first_code_from(codes, secret, i + 1)
    }
}

proof fn lemma_first_code_range(codes: Seq<BackupCode>, secret: Seq<char>, i: int)
    requires
        0 <= i <= codes.len(),
    ensures
        i <= first_code_from(codes, secret, i) <= codes.len(),
    decreases codes.len() - i,
{
    if i < codes.len() && !secret_matches(codes[i].password@, secret) {
        lemma_first_code_range(codes, secret, i + 1);
    }
}

/// Looks a user up by name; the first entry with that name wins.
pub fn find_user(registry: &Vec<UserEntry>, name: &str) -> (r: Option<usize>)
    ensures
        match r {
            Some(i) => i == first_user_from(registry@, name@, 0) && i < registry@.len(),
            None => first_user_from(registry@, name@, 0) == registry@.len(),
        },
{
    let mut i: usize = 0;
    while i < registry.len()
        invariant
            i <= registry@.len(),
            first_user_from(registry@, name@, 0) == first_user_from(registry@, name@, i as int),
        decreases registry.len() - i,
    {
        if registry[i].username == name.to_owned() {
            return Some(i);
        }
        i = i + 1;
    }
    None
}

/// Finds the first backup code that `secret` matches.
pub fn find_backup_code(codes: &Vec<BackupCode>, secret: &str) -> (r: Option<usize>)
    ensures
        match r {
            Some(i) => i == first_code_from(codes@, secret@, 0) && i < codes@.len(),
            None => first_code_from(codes@, secret@, 0) == codes@.len(),
        },
{
    let mut i: usize = 0;
    while i < codes.len()
        invariant
            i <= codes@.len(),
            first_code_from(codes@, secret@, 0) == first_code_from(codes@, secret@, i as int),
        decreases codes.len() - i,
    {
        if password_valid(codes[i].password.as_str(), secret) {
            return Some(i);
        }
        i = i + 1;
    }
    None
}

/// `token` opens to `text` under the key derived from `secret` and the base64
/// `salt`.
pub open spec fn unlocks(secret: Seq<char>, salt: Seq<char>, token: Seq<char>, text: Seq<char>) -> bool {
    match url_b64_decode_of(salt) {
        Some(raw) => opened_text(derived_key(secret, raw), token) == Some(text),
        None => false,
    }
}

/// No key can be derived from `secret` and `salt` that opens `token`.
pub open spec fn never_unlocks(secret: Seq<char>, salt: Seq<char>, token: Seq<char>) -> bool {
    match url_b64_decode_of(salt) {
        Some(raw) => opened_text(derived_key(secret, raw), token) is None,
        None => true,
    }
}

/// Decrypts `token` with the key derived from `secret` and the base64 `salt`.
pub fn unlock(secret: &str, salt: &str, token: &str) -> (r: Option<String>)
    ensures
        r matches Some(t) ==> unlocks(secret@, salt@, token@, t@),
        never_unlocks(secret@, salt@, token@) ==> r is None,
{
    match url_b64_decode(salt) {
        Some(raw) => {
            let key = derive_key(secret, raw.as_slice());
            decrypt_text(key.as_str(), token)
        },
        None => None,
    }
}

/// How a secret relates to a user's credentials.
pub enum SecretRoute {
    /// It is the password.
    Password,
    /// It matches the backup code at this index, and not the password.
    Backup(usize),
    /// It matches neither.
    NoMatch,
}

/// The route that `secret` takes for `u`: the password first, then the first
/// matching backup code.
pub open spec fn route_of(u: UserEntry, secret: Seq<char>) -> SecretRoute {
    if secret_matches(u.password@, secret) {
        SecretRoute::Password
    } else {
        let k = first_code_from(u.backup_codes@, secret, 0);
        if k < u.backup_codes@.len() {
            SecretRoute::Backup(k as usize)
        } else {
            SecretRoute::NoMatch
        }
    }
}

/// Decides whether `secret` is the password of `u`, one of its backup codes,
/// or neither.
pub fn secret_route(u: &UserEntry, secret: &str) -> (r: SecretRoute)
    ensures
        r == route_of(*u, secret@),
{
    if password_valid(u.password.as_str(), secret) {
        SecretRoute::Password
    } else {
        match find_backup_code(&u.backup_codes, secret) {
            Some(k) => SecretRoute::Backup(k),
            None => SecretRoute::NoMatch,
        }
    }
}

/// `key` is the journal key of `u` when `secret` is presented: the real
/// password (the secret itself, or what a matching backup code recovers) is
/// non-empty and opens the user's key token.
pub open spec fn grants(u: UserEntry, secret: Seq<char>, key: Seq<char>) -> bool {
    match route_of(u, secret) {
        SecretRoute::Password => secret.len() > 0 && unlocks(secret, u.salt@, u.enc_enc_key@, key),
        SecretRoute::Backup(k) => exists|p: Seq<char>|
            p.len() > 0
            && #[trigger] unlocks(secret, u.backup_codes@[k as int].salt@, u.backup_codes@[k as int].enc_orig_password@, p)
            && unlocks(p, u.salt@, u.enc_enc_key@, key),
        SecretRoute::NoMatch => false,
    }
}

/// Resolves the journal key of `u` for `secret`.
pub fn user_key(u: &UserEntry, secret: &str) -> (r: Result<String, AuthError>)
    ensures
        r matches Ok(k) ==> grants(*u, secret@, k@),
        r is Err ==> r == Err::<String, AuthError>(AuthError::WrongSecret),
        route_of(*u, secret@) is NoMatch ==> r is Err,
        secret@.len() > 0 && route_of(*u, secret@) is Password
            && never_unlocks(secret@, u.salt@, u.enc_enc_key@) ==> r is Err,
{
    proof {
        lemma_first_code_range(u.backup_codes@, secret@, 0);
    }
    let route = secret_route(u, secret);
    let password: String = match route {
        SecretRoute::Password => secret.to_owned(),
        SecretRoute::Backup(k) => {
            let bc = &u.backup_codes[k];
            match unlock(secret, bc.salt.as_str(), bc.enc_orig_password.as_str()) {
                Some(p) => p,
                None => return Err(AuthError::WrongSecret),
            }
        },
        SecretRoute::NoMatch => return Err(AuthError::WrongSecret),
    };
    if password.unicode_len() == 0 {
        return Err(AuthError::WrongSecret);
    }
    match unlock(password.as_str(), u.salt.as_str(), u.enc_enc_key.as_str()) {
        Some(key) => Ok(key),
        None => Err(AuthError::WrongSecret),
    }
}

/// Resolves the user id and journal key of the user named `user` in
/// `registry` for `user_password`, which may be the password or a backup code.
pub fn get_user_id_and_encryption_key(user: &str, user_password: &str, registry: &Vec<UserEntry>) -> (r: Result<(String, String), AuthError>)
    ensures
        (r == Err::<(String, String), AuthError>(AuthError::UserNotFound))
            <==> first_user_from(registry@, user@, 0) == registry@.len(),
        r matches Ok((id, key)) ==> {
            let i = first_user_from(registry@, user@, 0);
            &&& i < registry@.len()
            &&& id@ == registry@[i].user_id@
            &&& grants(registry@[i], user_password@, key@)
        },
        first_user_from(registry@, user@, 0) < registry@.len()
            && route_of(registry@[first_user_from(registry@, user@, 0)], user_password@) is NoMatch
            ==> r == Err::<(String, String), AuthError>(AuthError::WrongSecret),
{
    match find_user(registry, user) {
        None => Err(AuthError::UserNotFound),
        Some(i) => {
            let u = &registry[i];
            match user_key(u, user_password) {
                Ok(key) => Ok((u.user_id.clone(), key)),
                Err(e) => Err(e),
            }
        },
    }
}

/// A backup code grants the same journal key as the password it recovers:
/// when `code` takes the backup route of `u` and recovers `password`, and
/// `password` is the user's password, the keys that the two grant are equal.
pub proof fn backup_code_grants_password_key(u: UserEntry, code: Seq<char>, password: Seq<char>, k1: Seq<char>, k2: Seq<char>)
    requires
        route_of(u, code) matches SecretRoute::Backup(j) && unlocks(
            code,
            u.backup_codes@[j as int].salt@,
            u.backup_codes@[j as int].enc_orig_password@,
            password,
        ),
        route_of(u, password) is Password,
        grants(u, code, k1),
        grants(u, password, k2),
    ensures
        k1 == k2,
{
    if let SecretRoute::Backup(j) = route_of(u, code) {
        let bc = u.backup_codes@[j as int];
        let p = choose|p: Seq<char>|
            p.len() > 0 && #[trigger] unlocks(code, bc.salt@, bc.enc_orig_password@, p) && unlocks(
                p,
                u.salt@,
                u.enc_enc_key@,
                k1,
            );
        assert(p == password);
    }
}

} // verus!
