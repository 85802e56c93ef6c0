//! The token, the errors of the subsystem and the name of a user's list in
//! the store.

use crate::text::{decimal, lemma_decimal_injective, push_decimal};
use vstd::prelude::*;
use vstd::string::StringExecFns;

verus! {

/// User identifier type.
pub type UserId = u64;

/// Token as string (e.g. one that got from `Authorization` header).
pub type ApiToken = String;

/// Standard token length (64 symbols).
pub const TOKEN_LENGTH: usize = 64;

/// Standard salt length (16 symbols).
pub const SALT_LENGTH: usize = 16;

/// Limit of tokens for one user (3 tokens). When a new token would exceed
/// it, the oldest ones leave the list.
pub const MAX_TOKENS_PER_USER: isize = 3;

/// Limit of token validation time (each token lives 28 days).
pub const DAYS_VALID: i64 = 28;

/// Seconds in a day.
pub const SECONDS_PER_DAY: i64 = 86_400;

/// Why an operation of this subsystem was refused.
#[derive(Clone, Copy, Debug, PartialEq, Eq, Structural)]
pub enum AuthError {
    /// The password, salt and stored digest do not match.
    InvalidCredential,
    /// The presented string could not be read as a token.
    MalformedToken,
    /// The token is not in its user's list.
    UnknownToken,
    /// The token was found, but its validity window has passed.
    ExpiredToken,
    /// The store could not be reached or answered out of protocol.
    StoreError,
    /// The random generator refused to produce a value.
    Generation,
}

impl AuthError {
    /// The reason in words, for a log or a reply.
    pub fn message(&self) -> (text: &'static str)
        ensures
            text@ == match self {
                AuthError::InvalidCredential => "Hashes are not equal."@,
                AuthError::MalformedToken => "The token cannot be read."@,
                AuthError::UnknownToken => "There is no such tokens."@,
                AuthError::ExpiredToken => "The token is expired."@,
                AuthError::StoreError => "The tokens' storage failed."@,
                AuthError::Generation => "The token cannot be generated."@,
            },
    {
        match self {
            AuthError::InvalidCredential => "Hashes are not equal.",
            AuthError::MalformedToken => "The token cannot be read.",
            AuthError::UnknownToken => "There is no such tokens.",
            AuthError::ExpiredToken => "The token is expired.",
            AuthError::StoreError => "The tokens' storage failed.",
            AuthError::Generation => "The token cannot be generated.",
        }
    }
}

/// Holds user token.
#[derive(Debug)]
pub struct UserToken {
    pub user_id: UserId,
    token_str: String,
    birth: i64,
}

/// What a token is: whom it authenticates, its bearer secret and the second
/// (since the Unix epoch, UTC) at which it was issued.
pub struct TokenView {
    pub user_id: UserId,
    pub value: Seq<char>,
    pub issued_at: i64,
}

impl View for UserToken {
    type V = TokenView;

    closed spec fn view(&self) -> TokenView {
        TokenView { user_id: self.user_id, value: self.token_str@, issued_at: self.birth }
    }
}

impl UserToken {
    /// A token of the given parts.
    pub fn from_parts(user_id: UserId, token_str: String, birth: i64) -> (token: UserToken)
        ensures
            token@ == (TokenView { user_id, value: token_str@, issued_at: birth }),
    {
        UserToken { user_id, token_str, birth }
    }

    /// The bearer secret.
    pub fn token_str(&self) -> (value: &str)
        ensures
            value@ == self@.value,
    {
        self.token_str.as_str()
    }

    /// The second at which the token was issued.
    pub fn birth(&self) -> (birth: i64)
        ensures
            birth == self@.issued_at,
    {
        self.birth
    }

    /// The user whom the token authenticates.
    pub fn user(&self) -> (user_id: UserId)
        ensures
            user_id == self@.user_id,
    {
        self.user_id
    }
}

/// The name of the list that holds the tokens of `user_id`: the namespace
/// `user_tokens`, then `:id`, then the identifier in decimal.
pub open spec fn store_key(user_id: UserId) -> Seq<char> {
    "user_tokens:id"@ + decimal(user_id as nat)
}

/// Returns the name of the list in Redis-like DB that stores the users' tokens.
pub fn get_user_tokens_list_name(user_id: UserId) -> (name: String)
    ensures
        name@ == store_key(user_id),
{
    let mut name = String::from_str("user_tokens:id");
    push_decimal(&mut name, user_id);
    name
}

/// Two users never share a list.
pub proof fn lemma_store_key_injective(a: UserId, b: UserId)
    requires
        store_key(a) == store_key(b),
    ensures
        a == b,
{
    let prefix = "user_tokens:id"@;
    assert(decimal(a as nat) =~= store_key(a).skip(prefix.len() as int));
    assert(decimal(b as nat) =~= store_key(b).skip(prefix.len() as int));
    lemma_decimal_injective(a as nat, b as nat);
}

} // verus!
