//! Who may log in, the tokens they are issued and what a token check
//! answers. Tokens are JSON web tokens signed with HS256 under the
//! service's secret (see `jwt`).
use jsonwebtoken::errors::Error as JwtError;
use vstd::prelude::*;

use crate::id_set::Ident;
use crate::jwt::{
    decode_facts, has_dot, hs256_jwt, hs256_signature, jwt_decode, jwt_encode, signed_parts, signed_under,
};
use crate::models::UserId;

verus! {

/// Why a credential was refused.
#[derive(Debug, Clone, Copy, PartialEq, Eq, Structural)]
pub enum CredentialServiceError {
    NoCredentialFound,
    ErrorOnGeneratingJWT,
    InvalidJWT,
}

/// The expiration time written in every issued token, in seconds since the
/// Unix epoch.
pub const JWT_EXPIRATION: u64 = 10000000000;

/// The content of a token: the user it was issued to and when it expires.
#[derive(Debug)]
pub struct Claims {
    pub sub: UserId,
    pub exp: u64,
}

/// The secret under which tokens are signed and checked.
pub fn jwt_secret() -> (secret: &'static str)
    ensures
        secret@ == "secret"@,
{
    "secret"
}

/// One known user: the name and password to log in with, and the user's
/// identifier.
pub struct CredentialRow {
    username: String,
    password: String,
    user_id: UserId,
}

/// The model of a credential row.
pub struct CredentialRowView {
    pub username: Seq<char>,
    pub password: Seq<char>,
    pub user_id: Seq<char>,
}

impl View for CredentialRow {
    type V = CredentialRowView;

    closed spec fn view(&self) -> CredentialRowView {
        CredentialRowView {
            username: self.username@,
            password: self.password@,
            user_id: self.user_id@,
        }
    }
}

impl CredentialRow {
    fn new(username: &str, password: &str, user_id: &str) -> (r: CredentialRow)
        ensures
            r@.username == username@,
            r@.password == password@,
            r@.user_id == user_id@,
    {
        CredentialRow {
            username: username.to_owned(),
            password: password.to_owned(),
            user_id: UserId(user_id.to_owned()),
        }
    }

    /// The identifier of the user of this row.
    pub fn get_user_id(&self) -> (r: &UserId)
        ensures
            r@ == self@.user_id,
    {
        &self.user_id
    }
}

/// Whether a row lets `username` log in with `password`.
pub open spec fn row_matches(row: CredentialRowView, username: Seq<char>, password: Seq<char>) -> bool {
    row.username == username && row.password == password
}

/// `i` is the first row of `rows` that lets `username` log in with
/// `password`.
pub open spec fn is_first_match(
    rows: Seq<CredentialRowView>,
    username: Seq<char>,
    password: Seq<char>,
    i: int,
) -> bool {
    &&& 0 <= i < rows.len()
    &&& row_matches(rows[i], username, password)
    &&& forall|j: int| 0 <= j < i ==> !row_matches(#[trigger] rows[j], username, password)
}

/// The user that `username` and `password` log in as: the user of the first
/// row that holds both.
pub open spec fn logged_in_user(
    rows: Seq<CredentialRowView>,
    username: Seq<char>,
    password: Seq<char>,
) -> Option<Seq<char>> {
    if exists|i: int| is_first_match(rows, username, password, i) {
        Some(rows[choose|i: int| is_first_match(rows, username, password, i)].user_id)
    } else {
        None
    }
}

/// What logging in answers on the credential database `rows`: no credential
/// when no row lets `username` in with `password`; otherwise the user of the
/// first such row, with the HS256 token, under the secret, of the claims
/// naming that user and expiring at `JWT_EXPIRATION`.
pub open spec fn login_outcome(
    rows: Seq<CredentialRowView>,
    username: Seq<char>,
    password: Seq<char>,
) -> Result<(Seq<char>, Seq<char>), CredentialServiceError> {
    match logged_in_user(rows, username, password) {
        None => Err(CredentialServiceError::NoCredentialFound),
        Some(user) => Ok((user, hs256_jwt(user, JWT_EXPIRATION, "secret"@))),
    }
}

/// The model of what `login` returns: the user and the token by their text.
pub open spec fn login_view(r: Result<(UserId, String), CredentialServiceError>) -> Result<
    (Seq<char>, Seq<char>),
    CredentialServiceError,
> {
    match r {
        Ok((user_id, jwt)) => Ok((user_id@, jwt@)),
        Err(e) => Err(e),
    }
}

/// What the token check answers for `decoded`, what `jsonwebtoken` made of
/// a token: the user named by its `sub` claim when the token passed the check
/// with both a `sub` and an `exp` claim, and `InvalidJWT` otherwise.
pub open spec fn claims_answer(decoded: Result<(Option<String>, Option<u64>), JwtError>) -> Result<
    UserId,
    CredentialServiceError,
> {
    match decoded {
        Ok((Some(sub), Some(_))) => Ok(UserId(sub)),
        _ => Err(CredentialServiceError::InvalidJWT),
    }
}

/// What the token check answers on `token`: the answer for what
/// `jsonwebtoken` made of the token under the secret `"secret"`, of which
/// `decode_facts` is known (whether a token passes depends on the clock).
pub open spec fn decode_outcome(token: Seq<char>, r: Result<UserId, CredentialServiceError>) -> bool {
    exists|decoded: Result<(Option<String>, Option<u64>), JwtError>|
        #[trigger] decode_facts(token, "secret"@, decoded) && r == claims_answer(decoded)
}

/// The fixed database of known users.
pub struct CredentialService {
    db: Vec<CredentialRow>,
}

impl Default for CredentialService {
    fn default() -> (r: Self)
        ensures
            r@ == known_users(),
    {
        Self::new()
    }
}

impl View for CredentialService {
    type V = Seq<CredentialRowView>;

    closed spec fn view(&self) -> Seq<CredentialRowView> {
        self.db@.map_values(|r: CredentialRow| r@)
    }
}

/// The model of the four known users: foo, bar, pippo and pluto, each with
/// a password equal to the name and a user identifier equal to the name.
pub open spec fn known_users() -> Seq<CredentialRowView> {
    seq![
        CredentialRowView { username: "foo"@, password: "foo"@, user_id: "foo"@ },
        CredentialRowView { username: "bar"@, password: "bar"@, user_id: "bar"@ },
        CredentialRowView { username: "pippo"@, password: "pippo"@, user_id: "pippo"@ },
        CredentialRowView { username: "pluto"@, password: "pluto"@, user_id: "pluto"@ },
    ]
}

impl CredentialService {
    /// The service with its fixed database of users.
    pub fn new() -> (r: CredentialService)
        ensures
            r@ == known_users(),
    {
        let mut db: Vec<CredentialRow> = Vec::new();
        db.push(CredentialRow::new("foo", "foo", "foo"));
        db.push(CredentialRow::new("bar", "bar", "bar"));
        db.push(CredentialRow::new("pippo", "pippo", "pippo"));
        db.push(CredentialRow::new("pluto", "pluto", "pluto"));
        let r = CredentialService { db };
        assert(r@ =~= known_users());
        r
    }

    /// The first row that lets `username` log in with `password`.
    fn first_match(&self, username: &String, password: &String) -> (r: Option<usize>)
        ensures
            match r {
                Some(i) => is_first_match(self@, username@, password@, i as int),
                None => !exists|j: int| is_first_match(self@, username@, password@, j),
            },
    {
        let ghost rows = self@;
        let mut i: usize = 0;
        while i < self.db.len()
            invariant
                rows == self@,
                rows.len() == self.db@.len(),
                i <= self.db@.len(),
                forall|j: int| 0 <= j < i ==> !row_matches(#[trigger] rows[j], username@, password@),
            decreases self.db.len() - i,
        {
            let row = &self.db[i];
            assert(rows[i as int] == row@);
            if row.username == *username && row.password == *password {
                return Some(i);
            }
            i = i + 1;
        }
        None
    }

    /// Finds the user by name and password, and issues a token for it: the
    /// HS256 token, under `jwt_secret()`, of the claims naming the user and
    /// expiring at `JWT_EXPIRATION`.
    pub fn login(&self, username: String, password: String) -> (r: Result<
        (UserId, String),
        CredentialServiceError,
    >)
        ensures
            login_view(r) == login_outcome(self@, username@, password@),
    {
        let ghost rows = self@;
        let i = match self.first_match(&username, &password) {
            None => {
                return Err(CredentialServiceError::NoCredentialFound);
            },
            Some(i) => i,
        };
        proof {
            let k = choose|k: int| is_first_match(rows, username@, password@, k);
            assert(k == i) by {
                if k < i {
                    assert(!row_matches(rows[k], username@, password@));
                } else if i < k {
                    assert(!row_matches(rows[i as int], username@, password@));
                }
            }
        }
        assert(rows[i as int] == self.db@[i as int]@);
        let user_id = self.db[i].get_user_id().duplicate();
        let claims = Claims { sub: user_id.duplicate(), exp: JWT_EXPIRATION };
        match jwt_encode(claims.sub.0.as_str(), claims.exp, jwt_secret()) {
            Ok(jwt) => Ok((user_id, jwt)),
            Err(_) => Err(CredentialServiceError::ErrorOnGeneratingJWT),
        }
    }

    /// Checks `token` (HS256 signature under `jwt_secret()`, expiration) and
    /// answers the user its claims name, or `InvalidJWT` when the check fails
    /// or the claims lack a user or an expiration.
    pub fn try_decode(&self, token: &str) -> (r: Result<UserId, CredentialServiceError>)
        ensures
            decode_outcome(token@, r),
    {
        user_from_claims(jwt_decode(token, jwt_secret()))
    }
}

/// The answer of the token check for `decoded`, what `jsonwebtoken` made of
/// a token: the user its `sub` claim names when the token passed with both
/// a `sub` and an `exp` claim, `InvalidJWT` otherwise.
pub fn user_from_claims(decoded: Result<(Option<String>, Option<u64>), JwtError>) -> (r: Result<
    UserId,
    CredentialServiceError,
>)
    ensures
        r == claims_answer(decoded),
{
    match decoded {
        Ok((Some(sub), Some(exp))) => {
            let claims = Claims { sub: UserId(sub), exp };
            Ok(claims.sub)
        },
        _ => Err(CredentialServiceError::InvalidJWT),
    }
}

/// Logging in twice with the same name and password gives the same answer:
/// the same user and the same token, or the same refusal.
pub proof fn law_login_deterministic(
    rows: Seq<CredentialRowView>,
    username: Seq<char>,
    password: Seq<char>,
    r1: Result<(UserId, String), CredentialServiceError>,
    r2: Result<(UserId, String), CredentialServiceError>,
)
    requires
        login_view(r1) == login_outcome(rows, username, password),
        login_view(r2) == login_outcome(rows, username, password),
    ensures
        login_view(r1) == login_view(r2),
{
}

/// A token issued by logging in, when the token check accepts it, names the
/// user who logged in.
pub proof fn law_login_token_names_user(
    rows: Seq<CredentialRowView>,
    username: Seq<char>,
    password: Seq<char>,
    checked: Result<UserId, CredentialServiceError>,
)
    requires
        login_outcome(rows, username, password) is Ok,
        decode_outcome(login_outcome(rows, username, password)->Ok_0.1, checked),
        checked is Ok,
    ensures
        checked->Ok_0@ == login_outcome(rows, username, password)->Ok_0.0,
{
    let user = login_outcome(rows, username, password)->Ok_0.0;
    let token = login_outcome(rows, username, password)->Ok_0.1;
    let decoded = choose|decoded: Result<(Option<String>, Option<u64>), JwtError>|
        #[trigger] decode_facts(token, "secret"@, decoded) && checked == claims_answer(decoded);
    assert(token == hs256_jwt(user, JWT_EXPIRATION, "secret"@));
}

/// A token issued by logging in that `jsonwebtoken` lets through (it has
/// not expired) is accepted by the token check, as the user who logged in.
pub proof fn law_issued_token_accepted_when_it_passes(
    rows: Seq<CredentialRowView>,
    username: Seq<char>,
    password: Seq<char>,
    decoded: Result<(Option<String>, Option<u64>), JwtError>,
)
    requires
        login_outcome(rows, username, password) is Ok,
        decode_facts(login_outcome(rows, username, password)->Ok_0.1, "secret"@, decoded),
        decoded is Ok,
    ensures
        claims_answer(decoded) is Ok,
        claims_answer(decoded)->Ok_0@ == login_outcome(rows, username, password)->Ok_0.0,
{
    let user = login_outcome(rows, username, password)->Ok_0.0;
    assert(login_outcome(rows, username, password)->Ok_0.1 == hs256_jwt(
        user,
        JWT_EXPIRATION,
        "secret"@,
    ));
}

/// The token check accepts only tokens signed under the secret.
pub proof fn law_accepted_token_is_signed(token: Seq<char>, r: Result<UserId, CredentialServiceError>)
    requires
        decode_outcome(token, r),
        r is Ok,
    ensures
        signed_under(token, "secret"@),
{
}

/// A token with no dot in it (such as an empty one) is not a signed token:
/// the token check refuses it as `InvalidJWT`.
pub proof fn law_undotted_token_refused(token: Seq<char>, r: Result<UserId, CredentialServiceError>)
    requires
        decode_outcome(token, r),
        !has_dot(token),
    ensures
        r == Err::<UserId, CredentialServiceError>(CredentialServiceError::InvalidJWT),
{
    if r is Ok {
        let message = choose|message: Seq<char>|
            #[trigger] signed_parts(token, message, hs256_signature(message, "secret"@));
        assert(token[message.len() as int] == '.');
    }
}

/// With the fixed database, exactly the four known users can log in, each
/// with its own name as password, and each as the user of that name.
pub proof fn law_known_users_log_in(username: Seq<char>, password: Seq<char>)
    ensures
        logged_in_user(known_users(), username, password) == if username == password && (
        username == "foo"@ || username == "bar"@ || username == "pippo"@ || username
            == "pluto"@) {
            Some(username)
        } else {
            None::<Seq<char>>
        },
{
    reveal_strlit("foo");
    reveal_strlit("bar");
    reveal_strlit("pippo");
    reveal_strlit("pluto");
    let rows = known_users();
    assert("foo"@ != "bar"@) by {
        assert("foo"@[0] != "bar"@[0]);
    }
    assert("foo"@.len() != "pippo"@.len() && "foo"@.len() != "pluto"@.len());
    assert("bar"@.len() != "pippo"@.len() && "bar"@.len() != "pluto"@.len());
    assert("pippo"@ != "pluto"@) by {
        assert("pippo"@[1] != "pluto"@[1]);
    }
    if exists|i: int| is_first_match(rows, username, password, i) {
        let i = choose|i: int| is_first_match(rows, username, password, i);
        assert(0 <= i < 4);
    } else {
        assert(!is_first_match(rows, username, password, 0));
        assert(!is_first_match(rows, username, password, 1));
        assert(!is_first_match(rows, username, password, 2));
        assert(!is_first_match(rows, username, password, 3));
    }
}

} // verus!
