//! Discord login: the authorize URL, session tokens and their storage, the
//! users seen, and the decisions of the login, callback and logout routes.
use vstd::prelude::*;
use vstd::utf8::encode_utf8;
use crate::store::{
    be_bytes, database_error, db_contains_key, db_contents, appears, holds_value, readable_values, values_in_key_order, db_get, db_insert, db_open,
    lemma_records_insert, records_by_id, to_be_bytes, StorageError,
};
use crate::text::{decimal, digit_char, u64_to_decimal};
use crate::types::{lemma_utc_after_chronological, utc_after, UtcTime};

verus! {

/// A Discord user as the server remembers it.
#[derive(Debug, PartialEq, Eq)]
pub struct User {
    pub user_id: u64,
    pub username: String,
}

impl Clone for User {
    fn clone(&self) -> (r: Self)
        ensures
            r == *self,
    {
        User { user_id: self.user_id, username: self.username.clone() }
    }
}

/// The query of the OAuth callback.
#[derive(Debug, PartialEq, Eq)]
pub struct CallbackParams {
    pub code: String,
    pub state: String,
}

/// The query of the login route.
#[derive(Debug, PartialEq, Eq)]
pub struct LoginParms {
    pub redirect: Option<String>,
}

/// The query of the logout route.
#[derive(Debug, PartialEq, Eq)]
pub struct LogoutParams {
    pub redirect: Option<String>,
}

// --- Outside computations ---

/// SHA-256 of a byte sequence, as sha2 computes it.
pub uninterp spec fn sha256(data: Seq<u8>) -> Seq<u8>;

/// sha2's `Sha256::digest`: the claim is that the 32 bytes are the name
/// `sha256` applied to the input.
#[verifier::external_body]
fn sha256_digest(data: &[u8]) -> (r: [u8; 32])
    ensures
        r@ == sha256(data@),
{
    <sha2::Sha256 as sha2::Digest>::digest(data).into()
}

/// The characters that rand's `Alphanumeric` draws from.
pub open spec fn is_ascii_alphanumeric(c: char) -> bool {
    ('0' <= c && c <= '9') || ('A' <= c && c <= 'Z') || ('a' <= c && c <= 'z')
}

/// rand's `Alphanumeric.sample_string` with the thread generator: `len`
/// random ASCII letters and digits. Which ones is left open.
#[verifier::external_body]
fn random_alphanumeric(len: usize) -> (r: String)
    ensures
        r@.len() == len,
        forall|i: int| 0 <= i < len ==> is_ascii_alphanumeric(#[trigger] r@[i]),
{
    rand::distr::SampleString::sample_string(&rand::distr::Alphanumeric, &mut rand::rng(), len)
}

/// The bytes that the form encoding keeps as they are: `*-._`, digits and
/// ASCII letters.
pub open spec fn form_unchanged(b: u8) -> bool {
    b == 42 || b == 45 || b == 46 || b == 95 || (48 <= b <= 57) || (65 <= b <= 90) || (97 <= b <= 122)
}

/// An upper-case hexadecimal digit.
pub open spec fn hex_digit(n: nat) -> char {
    if n < 10 { digit_char(n) }
    else if n == 10 { 'A' }
    else if n == 11 { 'B' }
    else if n == 12 { 'C' }
    else if n == 13 { 'D' }
    else if n == 14 { 'E' }
    else { 'F' }
}

/// How the form encoding writes one byte: kept, a space as '+', anything
/// else as '%' and two upper-case hex digits.
pub open spec fn form_byte(b: u8) -> Seq<char> {
    if form_unchanged(b) {
        seq![b as char]
    } else if b == 32 {
        seq!['+']
    } else {
        seq!['%', hex_digit((b / 16) as nat), hex_digit((b % 16) as nat)]
    }
}

/// The form encoding of a byte sequence, byte by byte.
pub open spec fn form_bytes(bs: Seq<u8>) -> Seq<char>
    decreases bs.len(),
{
    if bs.len() == 0 {
        Seq::empty()
    } else {
        form_bytes(bs.drop_last()) + form_byte(bs.last())
    }
}

/// The form encoding (application/x-www-form-urlencoded) of a string's
/// UTF-8 bytes.
pub open spec fn form_encoded(s: Seq<char>) -> Seq<char> {
    form_bytes(encode_utf8(s))
}

/// url's `form_urlencoded::byte_serialize` over the string's UTF-8 bytes:
/// the claim is that it writes each byte as `form_byte` says.
#[verifier::external_body]
fn form_encode(s: &str) -> (r: String)
    ensures
        r@ == form_encoded(s@),
{
    url::form_urlencoded::byte_serialize(s.as_bytes()).collect()
}

// --- Session tokens ---

/// The key of a session token: the SHA-256 of its UTF-8 bytes.
pub open spec fn token_id(token: Seq<char>) -> Seq<u8> {
    sha256(encode_utf8(token))
}

/// A session token: 32 ASCII letters and digits.
pub open spec fn is_session_token(token: Seq<char>) -> bool {
    token.len() == 32 && forall|i: int| 0 <= i < 32 ==> is_ascii_alphanumeric(#[trigger] token[i])
}

/// The key under which a token's session is stored.
pub fn get_id_from_token(token: &str) -> (r: [u8; 32])
    ensures
        r@ == token_id(token@),
{
    sha256_digest(token.as_bytes())
}

/// A fresh random session token and its key.
pub fn create_new_token() -> (r: (String, [u8; 32]))
    ensures
        is_session_token(r.0@),
        r.1@ == token_id(r.0@),
{
    let token = random_alphanumeric(32);
    let id = get_id_from_token(token.as_str());
    (token, id)
}

/// Seconds in the seven days a session lasts.
pub open spec fn session_length() -> int {
    604800
}

/// The last second that chrono's UTC times can hold.
pub open spec fn max_utc_secs() -> int {
    8210266876799
}

/// When a session started at `now` expires: seven days later.
pub fn session_expiry(now: UtcTime) -> (r: UtcTime)
    requires
        now.secs + session_length() <= max_utc_secs(),
    ensures
        r.secs == now.secs + session_length(),
        r.nanos == now.nanos,
{
    UtcTime { secs: now.secs + 604800, nanos: now.nanos }
}

/// The user of a session, if the session exists and has not expired at `now`.
pub open spec fn session_holder(session: Option<(UtcTime, User)>, now: UtcTime) -> Option<User> {
    match session {
        Some((expires, user)) => if utc_after(now, expires) { None } else { Some(user) },
        None => None,
    }
}

/// A session is valid while its expiry lies ahead and gone once it lies
/// behind: checked at a second before its expiry's second it yields its
/// user; at a second after, nothing.
pub proof fn lemma_session_until_expiry(expires: UtcTime, now: UtcTime, user: User)
    ensures
        now.secs < expires.secs ==> session_holder(Some((expires, user)), now) == Some(user),
        now.secs > expires.secs ==> session_holder(Some((expires, user)), now) is None,
        now == expires ==> session_holder(Some((expires, user)), now) == Some(user),
{
    lemma_utc_after_chronological(now, expires);
}

/// The user of a session, if the session exists and has not expired at `now`.
pub fn session_user(session: Option<(UtcTime, User)>, now: UtcTime) -> (r: Option<User>)
    ensures
        r == session_holder(session, now),
{
    match session {
        Some((expires, user)) => {
            if now.is_after(&expires) {
                None
            } else {
                Some(user)
            }
        },
        None => None,
    }
}

/// The session record stored for a token, if any.
pub open spec fn session_record(m: Map<Seq<u8>, Seq<u8>>, token: Seq<char>) -> Option<Seq<u8>> {
    if m.contains_key(token_id(token)) { Some(m[token_id(token)]) } else { None }
}

/// What session creation does once it has looked up the key of a drawn
/// token.
#[derive(Debug, PartialEq, Eq)]
pub enum DrawStep {
    /// The key is in use: draw another token.
    DrawAgain,
    /// The key is free: store the session under it.
    Store,
    /// The lookup failed with this error.
    Fail(StorageError),
}

/// The next step after the lookup: a used key means another draw, a free
/// one means storing, a failed lookup ends with its error.
pub fn draw_step(in_use: Result<bool, StorageError>) -> (r: DrawStep)
    ensures
        r == (match in_use {
            Ok(true) => DrawStep::DrawAgain,
            Ok(false) => DrawStep::Store,
            Err(e) => DrawStep::Fail(e),
        }),
{
    match in_use {
        Ok(true) => DrawStep::DrawAgain,
        Ok(false) => DrawStep::Store,
        Err(e) => DrawStep::Fail(e),
    }
}

/// Persistent sessions: each record is stored under the key of its token.
pub struct TokenStorage {
    db: sled::Db,
}

impl TokenStorage {
    /// What the session database holds.
    pub closed spec fn contents(&self) -> Map<Seq<u8>, Seq<u8>> {
        db_contents(self.db)
    }

    /// Opens the session database at `path`.
    pub fn open(path: &str) -> (r: Result<TokenStorage, StorageError>)
        ensures
            r matches Err(e) ==> e == StorageError::Database,
    {
        match db_open(path) {
            Ok(db) => Ok(TokenStorage { db }),
            Err(e) => Err(database_error(e)),
        }
    }

    /// Stores a session record under a fresh token whose key was not in use,
    /// drawing tokens until one is free, and returns the token. It gives up
    /// with `NoFreeKey` only after `u64::MAX` draws whose keys were all in
    /// use, leaving the sessions as they were.
    pub fn create(&mut self, record: &[u8]) -> (r: Result<String, StorageError>)
        ensures
            r matches Ok(token) ==> is_session_token(token@)
                && !old(self).contents().contains_key(token_id(token@))
                && final(self).contents() == old(self).contents().insert(token_id(token@), record@),
            r is Err ==> final(self).contents() == old(self).contents() || r == Err::<String, StorageError>(StorageError::Database),
            r == Err::<String, StorageError>(StorageError::NoFreeKey) ==> final(self).contents() == old(self).contents()
                && exists|t: Seq<char>| is_session_token(t) && #[trigger] old(self).contents().contains_key(token_id(t)),
    {
        let mut attempts: u64 = 0;
        while attempts < u64::MAX
            invariant
                self.contents() == old(self).contents(),
                attempts > 0 ==> exists|t: Seq<char>| is_session_token(t) && #[trigger] old(self).contents().contains_key(token_id(t)),
            decreases u64::MAX - attempts,
        {
            let (token, id) = create_new_token();
            let in_use = match db_contains_key(&self.db, &id) {
                Ok(b) => Ok(b),
                Err(e) => Err(database_error(e)),
            };
            match draw_step(in_use) {
                DrawStep::Fail(e) => return Err(e),
                DrawStep::DrawAgain => {
                    assert(old(self).contents().contains_key(token_id(token@)));
                },
                DrawStep::Store => {
                    return match db_insert(&mut self.db, &id, record) {
                        Ok(()) => Ok(token),
                        Err(e) => Err(database_error(e)),
                    };
                },
            }
            attempts = attempts + 1;
        }
        Err(StorageError::NoFreeKey)
    }

    /// The record of a session token, if there is one.
    pub fn get(&self, session_token: &str) -> (r: Result<Option<Vec<u8>>, StorageError>)
        ensures
            r matches Ok(v) ==> (match v {
                Some(b) => session_record(self.contents(), session_token@) == Some(b@),
                None => session_record(self.contents(), session_token@) is None,
            }),
            r matches Err(e) ==> e == StorageError::Database,
    {
        let id = get_id_from_token(session_token);
        match db_get(&self.db, &id) {
            Ok(v) => Ok(v),
            Err(e) => Err(database_error(e)),
        }
    }

    /// The session records that could be read, in ascending key order,
    /// and whether every one could be read; each is the record of some key,
    /// and when every one could be read every record is here.
    pub fn list_all(&self) -> (r: (Vec<Vec<u8>>, bool))
        ensures
            forall|i: int| 0 <= i < r.0@.len() ==> holds_value(self.contents(), #[trigger] r.0@[i]@),
            exists|ks: Seq<Seq<u8>>| #[trigger] values_in_key_order(self.contents(), r.0@, ks),
            r.1 ==> forall|k: Seq<u8>| #[trigger] self.contents().contains_key(k) ==> appears(r.0@, self.contents()[k]),
    {
        let r = readable_values(&self.db);
        proof {
            let ks = choose|ks: Seq<Seq<u8>>| #[trigger] values_in_key_order(db_contents(self.db), r.0@, ks);
            assert(values_in_key_order(self.contents(), r.0@, ks));
        }
        r
    }
}

/// After a session is created, looking its token up gives its record.
pub proof fn lemma_session_read_after_create(m: Map<Seq<u8>, Seq<u8>>, token: Seq<char>, record: Seq<u8>)
    ensures
        session_record(m.insert(token_id(token), record), token) == Some(record),
{
}

// --- Users ---

/// Persistent users: one record per user, stored under the big-endian bytes
/// of the user id.
pub struct UserStorage {
    db: sled::Db,
}

impl UserStorage {
    /// What the user database holds.
    pub closed spec fn contents(&self) -> Map<Seq<u8>, Seq<u8>> {
        db_contents(self.db)
    }

    /// The stored records by user id.
    pub open spec fn records(&self) -> Map<u64, Seq<u8>> {
        records_by_id(self.contents())
    }

    /// Opens the user database at `path`.
    pub fn open(path: &str) -> (r: Result<UserStorage, StorageError>)
        ensures
            r matches Err(e) ==> e == StorageError::Database,
    {
        match db_open(path) {
            Ok(db) => Ok(UserStorage { db }),
            Err(e) => Err(database_error(e)),
        }
    }

    /// Stores the record of a user under the user's id.
    pub fn insert(&mut self, user: &User, record: &[u8]) -> (r: Result<(), StorageError>)
        ensures
            r is Ok ==> final(self).records() == old(self).records().insert(user.user_id, record@),
            r matches Err(e) ==> e == StorageError::Database,
    {
        let key = to_be_bytes(user.user_id);
        match db_insert(&mut self.db, &key, record) {
            Ok(()) => {
                proof { lemma_records_insert(old(self).contents(), user.user_id, record@); }
                Ok(())
            },
            Err(e) => Err(database_error(e)),
        }
    }

    /// The record of a user, if there is one.
    pub fn get(&self, user_id: u64) -> (r: Result<Option<Vec<u8>>, StorageError>)
        ensures
            r matches Ok(v) ==> (match v {
                Some(b) => self.records().contains_key(user_id) && self.records()[user_id] == b@,
                None => !self.records().contains_key(user_id),
            }),
            r matches Err(e) ==> e == StorageError::Database,
    {
        let key = to_be_bytes(user_id);
        match db_get(&self.db, &key) {
            Ok(v) => Ok(v),
            Err(e) => Err(database_error(e)),
        }
    }
}

/// After a record is stored for an id, reading that id gives the record.
pub proof fn lemma_records_read_after_write(m: Map<Seq<u8>, Seq<u8>>, id: u64, record: Seq<u8>)
    ensures
        records_by_id(m.insert(be_bytes(id), record)).contains_key(id),
        records_by_id(m.insert(be_bytes(id), record))[id] == record,
{
    lemma_records_insert(m, id, record);
}

// --- Routes ---

/// Discord's authorize URL for this application, asking for the user's
/// identity and carrying `state` back to `redirect_uri`.
pub open spec fn invite_url(client_id: u64, redirect_uri: Seq<char>, state: Seq<char>) -> Seq<char> {
    "https://discord.com/oauth2/authorize?response_type=code&client_id="@ + form_encoded(decimal(client_id as nat))
        + "&redirect_uri="@ + form_encoded(redirect_uri) + "&state="@ + form_encoded(state) + "&scope=identify"@
}

/// Builds Discord's authorize URL; the query parameters are form-encoded.
pub fn create_invite_url(client_id: u64, redirect_uri: &str, state: &str) -> (r: String)
    ensures
        r@ == invite_url(client_id, redirect_uri@, state@),
{
    let id = u64_to_decimal(client_id);
    let mut url = String::from_str("https://discord.com/oauth2/authorize?response_type=code&client_id=");
    let id_encoded = form_encode(id.as_str());
    url.append(id_encoded.as_str());
    url.append("&redirect_uri=");
    let uri_encoded = form_encode(redirect_uri);
    url.append(uri_encoded.as_str());
    url.append("&state=");
    let state_encoded = form_encode(state);
    url.append(state_encoded.as_str());
    url.append("&scope=identify");
    url
}

/// What the login route does: remember a fresh random `auth_state` in a
/// cookie, remember where to return (if asked) in another, and send the
/// browser to `location`.
#[derive(Debug, PartialEq, Eq)]
pub struct LoginRedirect {
    pub auth_state: String,
    pub redirect_cookie: Option<String>,
    pub location: String,
}

/// The login route's plan for a request.
pub fn login_redirect(client_id: u64, redirect_uri: &str, params: LoginParms) -> (r: LoginRedirect)
    ensures
        is_session_token(r.auth_state@),
        r.redirect_cookie == params.redirect,
        r.location@ == invite_url(client_id, redirect_uri@, r.auth_state@),
{
    let auth_state = random_alphanumeric(32);
    let location = create_invite_url(client_id, redirect_uri, auth_state.as_str());
    LoginRedirect { auth_state, redirect_cookie: params.redirect, location }
}

/// Whether the OAuth callback belongs to this browser's login: its `state`
/// equals the one remembered in the browser's cookie. A callback for which
/// this is false is refused before anything is sent to Discord.
pub fn state_matches(cookie_state: Option<&str>, params: &CallbackParams) -> (r: bool)
    ensures
        r == (cookie_state matches Some(c) && c@ == params.state@),
{
    match cookie_state {
        Some(c) => {
            let c = String::from_str(c);
            c == params.state
        },
        None => false,
    }
}

/// The `Authorization` header value for a user's access token.
pub fn bearer(access_token: &str) -> (r: String)
    ensures
        r@ == "Bearer "@ + access_token@,
{
    let mut r = String::from_str("Bearer ");
    r.append(access_token);
    r
}

/// Where a finished login or a logout sends the browser: the remembered
/// path, or the home page.
pub fn return_location(redirect: Option<String>) -> (r: String)
    ensures
        r@ == (match redirect { Some(p) => p@, None => "/"@ }),
{
    match redirect {
        Some(p) => p,
        None => String::from_str("/"),
    }
}

/// Why finishing a login failed.
#[derive(Debug, PartialEq, Eq)]
pub enum LoginError {
    /// The user could not be stored.
    UserNotStored,
    /// No session could be created.
    SessionNotCreated,
}

/// A finished login: the new session's token and where to send the browser.
#[derive(Debug, PartialEq, Eq)]
pub struct LoginSession {
    pub session_token: String,
    pub location: String,
}

/// The end of the OAuth callback, once Discord has named the user: store
/// the user, open a session for them (its record prepared by the caller),
/// and send the browser back where it came from.
pub fn finish_login(
    users: &mut UserStorage,
    tokens: &mut TokenStorage,
    user: &User,
    user_record: &[u8],
    session_record: &[u8],
    redirect_cookie: Option<String>,
) -> (r: Result<LoginSession, LoginError>)
    ensures
        r matches Ok(s) ==> {
            &&& final(users).records() == old(users).records().insert(user.user_id, user_record@)
            &&& is_session_token(s.session_token@)
            &&& !old(tokens).contents().contains_key(token_id(s.session_token@))
            &&& final(tokens).contents() == old(tokens).contents().insert(token_id(s.session_token@), session_record@)
            &&& s.location@ == (match redirect_cookie { Some(p) => p@, None => "/"@ })
        },
        r == Err::<LoginSession, LoginError>(LoginError::UserNotStored) ==> final(tokens).contents() == old(tokens).contents(),
        r == Err::<LoginSession, LoginError>(LoginError::SessionNotCreated) ==> final(users).records()
            == old(users).records().insert(user.user_id, user_record@),
{
    match users.insert(user, user_record) {
        Ok(()) => {},
        Err(_) => return Err(LoginError::UserNotStored),
    }
    let session_token = match tokens.create(session_record) {
        Ok(t) => t,
        Err(_) => return Err(LoginError::SessionNotCreated),
    };
    Ok(LoginSession { session_token, location: return_location(redirect_cookie) })
}

/// A session is valid at the moment it is created: its expiry does not lie
/// before the time it was made.
pub proof fn lemma_new_session_valid(now: UtcTime, expires: UtcTime, user: User)
    requires
        expires.secs == now.secs + session_length(),
        expires.nanos == now.nanos,
    ensures
        session_holder(Some((expires, user)), now) == Some(user),
{
}

} // verus!
