//! Bearer-token authentication of API users, and token issuing.
use vstd::prelude::*;
use vstd::string::StrSliceExecFns;
use vstd::utf8::encode_utf8;
use crate::hash::{blake3_hex, blake3_hex_of, is_lower_hex};
use crate::model::UserProfile;
use crate::text::{before_char, decimal, push_decimal, strip_prefix, text_before};
use crate::time::{read_clock, ClockReading};

verus! {

/// Why a request was refused.
#[derive(Clone, Copy, Debug, PartialEq, Eq, Structural)]
pub enum AuthError {
    /// No `Authorization: Bearer ...` header.
    Missing,
    /// Unknown user, or a token that does not match the stored hash.
    Invalid,
    /// The user store could not be read.
    Internal,
}

impl AuthError {
    /// The HTTP status the refusal is answered with.
    pub open spec fn status_spec(self) -> u16 {
        match self {
            AuthError::Missing => 401,
            AuthError::Invalid => 401,
            AuthError::Internal => 500,
        }
    }

    /// The HTTP status the refusal is answered with: 401 Unauthorized for a missing or
    /// invalid token, 500 Internal Server Error when the store failed.
    pub fn status_code(&self) -> (s: u16)
        ensures
            s == self.status_spec(),
    {
        match self {
            AuthError::Missing => 401,
            AuthError::Invalid => 401,
            AuthError::Internal => 500,
        }
    }

    /// The body text the refusal is answered with.
    pub fn message(&self) -> (m: String)
        ensures
            *self == AuthError::Missing ==> m@ == "Authorization header required"@,
            *self == AuthError::Invalid ==> m@ == "Invalid token"@,
            *self == AuthError::Internal ==> m@ == "Auth error"@,
    {
        match self {
            AuthError::Missing => "Authorization header required".to_owned(),
            AuthError::Invalid => "Invalid token".to_owned(),
            AuthError::Internal => "Auth error".to_owned(),
        }
    }
}

/// What looking a user up in the store gave.
#[derive(Clone, Debug, PartialEq, Eq)]
pub enum UserLookup {
    Found(UserProfile),
    NotFound,
    /// The store could not be read.
    Failed,
}

/// The scheme prefix of an `Authorization` header value.
pub open spec fn bearer_prefix() -> Seq<char> {
    seq!['B', 'e', 'a', 'r', 'e', 'r', ' ']
}

/// The token carried by an `Authorization` header value, if it is a bearer one.
pub open spec fn bearer_token_spec(header: Option<Seq<char>>) -> Result<Seq<char>, AuthError> {
    match header {
        None => Err(AuthError::Missing),
        Some(h) => if bearer_prefix().is_prefix_of(h) {
            Ok(h.subrange(7, h.len() as int))
        } else {
            Err(AuthError::Missing)
        },
    }
}

/// The token of an `Authorization` header value (`None` when the request has none, or
/// when its value is not visible ASCII): what follows `Bearer `; `Missing` otherwise.
pub fn bearer_token(header: Option<&str>) -> (r: Result<String, AuthError>)
    ensures
        r matches Ok(t) ==> bearer_token_spec(match header {
            Some(h) => Some(h@),
            None => None,
        }) == Ok::<Seq<char>, AuthError>(t@),
        r matches Err(e) ==> bearer_token_spec(match header {
            Some(h) => Some(h@),
            None => None,
        }) == Err::<Seq<char>, AuthError>(e),
{
    match header {
        None => Err(AuthError::Missing),
        Some(h) => {
            proof {
                reveal_strlit("Bearer ");
                assert("Bearer "@ =~= bearer_prefix());
            }
            match strip_prefix(h, "Bearer ") {
                Some(t) => Ok(t),
                None => Err(AuthError::Missing),
            }
        },
    }
}

/// The user a token names: its text before the first `:`.
pub open spec fn token_user_id_spec(token: Seq<char>) -> Seq<char> {
    before_char(token, ':')
}

/// The user a token names: its text before the first `:` (all of it without one).
pub fn token_user_id(token: &str) -> (u: String)
    ensures
        u@ == token_user_id_spec(token@),
{
    text_before(token, ':')
}

/// Whether bcrypt verification of the token bytes against a stored hash succeeds
/// (`Some(true)`), fails (`Some(false)`), or cannot be done because the hash is not a
/// well-formed bcrypt hash or the token is over bcrypt's 72-byte limit (`None`).
pub uninterp spec fn bcrypt_outcome(token: Seq<u8>, hash: Seq<char>) -> Option<bool>;

#[verifier::external_type_specification]
#[verifier::external_body]
pub struct ExBcryptError(bcrypt::BcryptError);

/// bcrypt verification of `token` against `hash`.
/// Trusted: calls `bcrypt::non_truncating_verify(token, hash)`, which reads the cost
/// and salt from the hash, hashes the token again and compares; it fails on a
/// malformed hash and on a token of 72 bytes or more. The outcome is named: it depends
/// on the two arguments alone.
#[verifier::external_body]
fn bcrypt_verify(token: &[u8], hash: &str) -> (r: Result<bool, bcrypt::BcryptError>)
    ensures
        r matches Ok(b) ==> bcrypt_outcome(token@, hash@) == Some(b),
        r is Err ==> bcrypt_outcome(token@, hash@) is None,
{
    bcrypt::non_truncating_verify(token, hash)
}

/// The prefix of a bcrypt hash of version 2b at cost 12.
pub open spec fn bcrypt_prefix() -> Seq<char> {
    seq!['$', '2', 'b', '$', '1', '2', '$']
}

/// A bcrypt hash of `token` at bcrypt's default cost, with a random salt.
/// Trusted: calls `bcrypt::non_truncating_hash(token, bcrypt::DEFAULT_COST)` (cost 12).
/// It fails when the OS cannot supply the salt, or for a token of 72 bytes or more.
/// On success the source formats the hash as `$2b$12$` followed by 22 characters of
/// salt and 31 of digest, 60 in all, and verifying the same token against it recomputes
/// the same digest from the same salt and cost, so verification succeeds. The salt is
/// random: nothing else is claimed.
#[verifier::external_body]
fn bcrypt_hash(token: &[u8]) -> (r: Result<String, bcrypt::BcryptError>)
    ensures
        r matches Ok(h) ==> bcrypt_outcome(token@, h@) == Some(true),
        r matches Ok(h) ==> h@.len() == 60 && h@.subrange(0, 7) == bcrypt_prefix(),
{
    bcrypt::non_truncating_hash(token, bcrypt::DEFAULT_COST)
}

/// The longest token, in bytes, that bcrypt takes without cutting it.
pub const BCRYPT_MAX_TOKEN_BYTES: usize = 71;

/// The answer to a request carrying `token`, given what the user lookup gave: the
/// user is accepted when bcrypt verification of the token against the stored hash
/// succeeds; a failed lookup or a stored hash that is not a bcrypt hash is an
/// internal error; anything else is an invalid token.
pub open spec fn authorize_spec(token: Seq<char>, lookup: UserLookup) -> Result<UserProfile, AuthError> {
    match lookup {
        UserLookup::Failed => Err(AuthError::Internal),
        UserLookup::NotFound => Err(AuthError::Invalid),
        UserLookup::Found(user) => if encode_utf8(token).len() > BCRYPT_MAX_TOKEN_BYTES {
            Err(AuthError::Invalid)
        } else {
            match bcrypt_outcome(encode_utf8(token), user.token_hash@) {
                Some(true) => Ok(user),
                Some(false) => Err(AuthError::Invalid),
                None => Err(AuthError::Internal),
            }
        },
    }
}

/// Accepts the user found for a token when bcrypt verification of the token against
/// the stored hash succeeds; refuses with `Invalid` an unknown user, a token too long
/// for bcrypt or a mismatch, with `Internal` a failed lookup or a malformed stored hash.
pub fn authorize(token: &str, lookup: UserLookup) -> (r: Result<UserProfile, AuthError>)
    ensures
        r == authorize_spec(token@, lookup),
{
    match lookup {
        UserLookup::Failed => Err(AuthError::Internal),
        UserLookup::NotFound => Err(AuthError::Invalid),
        UserLookup::Found(user) => {
            let bytes = token.as_bytes();
            if bytes.len() > BCRYPT_MAX_TOKEN_BYTES {
                return Err(AuthError::Invalid);
            }
            match bcrypt_verify(bytes, user.token_hash.as_str()) {
                Ok(true) => Ok(user),
                Ok(false) => Err(AuthError::Invalid),
                Err(_) => Err(AuthError::Internal),
            }
        },
    }
}

/// Why no token could be issued.
#[derive(Clone, Copy, Debug, PartialEq, Eq, Structural)]
pub enum TokenError {
    /// The token would be longer than bcrypt takes (the user id is too long).
    TooLong,
    /// Hashing failed (no random salt could be had).
    HashFailed,
}

/// Length of the secret part of an issued token.
pub const TOKEN_SECRET_CHARS: usize = 32;

/// The secret of a token issued to `user_id` at `nanos`: the first 32 hex digits of
/// the BLAKE3 digest of the user id followed by the nanoseconds in decimal.
pub open spec fn token_secret(user_id: Seq<char>, nanos: nat) -> Seq<char> {
    blake3_hex_of(encode_utf8(user_id + decimal(nanos))).subrange(0, 32)
}

/// The token issued to `user_id` at `nanos`: `<user_id>:<secret>`.
pub open spec fn issued_token(user_id: Seq<char>, nanos: nat) -> Seq<char> {
    user_id + seq![':'] + token_secret(user_id, nanos)
}

/// Issues a token for `user_id` from the clock reading `nanos`: returns the token
/// `<user_id>:<secret>` and its bcrypt hash, to store in the user's profile. A token
/// over bcrypt's limit is refused as `TooLong`.
pub fn generate_token_at(user_id: &str, nanos: u32) -> (r: Result<(String, String), TokenError>)
    ensures
        encode_utf8(issued_token(user_id@, nanos as nat)).len() > BCRYPT_MAX_TOKEN_BYTES ==> r
            == Err::<(String, String), TokenError>(TokenError::TooLong),
        r matches Err(e) ==> (e == TokenError::TooLong) == (encode_utf8(
            issued_token(user_id@, nanos as nat),
        ).len() > BCRYPT_MAX_TOKEN_BYTES),
        r matches Ok((t, h)) ==> {
            &&& t@ == issued_token(user_id@, nanos as nat)
            &&& t@.len() == user_id@.len() + 1 + 32
            &&& forall|i: int|
                user_id@.len() + 1 <= i < t@.len() ==> is_lower_hex(#[trigger] t@[i])
            &&& bcrypt_outcome(encode_utf8(t@), h@) == Some(true)
            &&& h@.len() == 60
            &&& h@.subrange(0, 7) == bcrypt_prefix()
        },
{
    let mut seed = user_id.to_owned();
    push_decimal(&mut seed, nanos as u64);
    let full = blake3_hex(seed.as_str().as_bytes());
    let secret = full.as_str().substring_char(0, TOKEN_SECRET_CHARS);
    let mut token = user_id.to_owned();
    crate::text::push_char(&mut token, ':');
    token.append(secret);
    proof {
        assert forall|i: int| user_id@.len() + 1 <= i < token@.len() implies is_lower_hex(
            #[trigger] token@[i],
        ) by {
            assert(token@[i] == full@[i - user_id@.len() - 1]);
        }
        assert(token@ =~= issued_token(user_id@, nanos as nat));
    }
    let bytes = token.as_str().as_bytes();
    if bytes.len() > BCRYPT_MAX_TOKEN_BYTES {
        return Err(TokenError::TooLong);
    }
    match bcrypt_hash(bytes) {
        Ok(hash) => Ok((token, hash)),
        Err(_) => Err(TokenError::HashFailed),
    }
}

/// Issues a token for `user_id`, seeded with the nanoseconds past the whole seconds of
/// the clock's distance from the Unix epoch (see `generate_token_at`).
pub fn generate_token(user_id: &str) -> (r: Result<(String, String), TokenError>)
    ensures
        exists|nanos: nat|
            nanos < 1_000_000_000 && {
                &&& encode_utf8(issued_token(user_id@, nanos)).len() > BCRYPT_MAX_TOKEN_BYTES
                    ==> r == Err::<(String, String), TokenError>(TokenError::TooLong)
                &&& r matches Err(e) ==> (e == TokenError::TooLong) == (encode_utf8(
                    issued_token(user_id@, nanos),
                ).len() > BCRYPT_MAX_TOKEN_BYTES)
                &&& r matches Ok((t, h)) ==> {
                    &&& t@ == issued_token(user_id@, nanos)
                    &&& bcrypt_outcome(encode_utf8(t@), h@) == Some(true)
                    &&& h@.len() == 60
                    &&& h@.subrange(0, 7) == bcrypt_prefix()
                }
            },
        r matches Ok((t, h)) ==> t@.len() == user_id@.len() + 1 + 32 && forall|i: int|
            user_id@.len() + 1 <= i < t@.len() ==> is_lower_hex(#[trigger] t@[i]),
{
    let nanos = match read_clock() {
        ClockReading::AfterEpoch { nanos, .. } => nanos,
        ClockReading::BeforeEpoch { nanos, .. } => nanos,
    };
    generate_token_at(user_id, nanos)
}

/// Law: a token issued to a user id without `:` authenticates that user. Sent as
/// `Bearer <token>`, it is read back, it names the user, and the profile holding the
/// issued hash (one bcrypt accepts the token against) accepts it.
pub proof fn lemma_issued_token_authenticates(
    user_id: Seq<char>,
    token: Seq<char>,
    profile: UserProfile,
)
    requires
        !user_id.contains(':'),
        token.len() > user_id.len(),
        token.subrange(0, user_id.len() as int) == user_id,
        token[user_id.len() as int] == ':',
        encode_utf8(token).len() <= BCRYPT_MAX_TOKEN_BYTES,
        bcrypt_outcome(encode_utf8(token), profile.token_hash@) == Some(true),
    ensures
        bearer_token_spec(Some(bearer_prefix() + token)) == Ok::<Seq<char>, AuthError>(token),
        token_user_id_spec(token) == user_id,
        authorize_spec(token, UserLookup::Found(profile)) == Ok::<UserProfile, AuthError>(profile),
{
    let h = bearer_prefix() + token;
    assert(bearer_prefix().is_prefix_of(h)) by {
        assert(bearer_prefix() =~= h.subrange(0, 7));
    }
    assert(h.subrange(7, h.len() as int) =~= token);
    assert forall|j: int| 0 <= j < user_id.len() implies token[j] != ':' by {
        assert(token[j] == user_id[j]);
        assert(user_id.contains(user_id[j]));
    }
    crate::text::lemma_index_of_char_first(token, ':', user_id.len() as int);
}

/// Law: a request without a bearer header is refused as `Missing`, answered 401.
pub proof fn lemma_missing_header_refused(header: Option<Seq<char>>)
    requires
        header matches Some(h) ==> !bearer_prefix().is_prefix_of(h),
    ensures
        bearer_token_spec(header) == Err::<Seq<char>, AuthError>(AuthError::Missing),
        AuthError::Missing.status_spec() == 401,
{
}

/// Law: a token that bcrypt does not accept against the stored hash is refused as
/// `Invalid`, answered 401, whoever the profile is.
pub proof fn lemma_wrong_token_refused(token: Seq<char>, profile: UserProfile)
    requires
        bcrypt_outcome(encode_utf8(token), profile.token_hash@) == Some(false)
            || encode_utf8(token).len() > BCRYPT_MAX_TOKEN_BYTES,
    ensures
        authorize_spec(token, UserLookup::Found(profile)) == Err::<UserProfile, AuthError>(
            AuthError::Invalid,
        ),
        AuthError::Invalid.status_spec() == 401,
{
}

} // verus!
