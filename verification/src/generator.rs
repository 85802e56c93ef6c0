//! Fresh tokens and salts: random values from the `passwords` crate and the
//! clock of `chrono`.

use crate::token::{AuthError, TokenView, UserId, UserToken, SALT_LENGTH, TOKEN_LENGTH};
use chrono::Utc;
use passwords::PasswordGenerator;
use vstd::prelude::*;

verus! {

/// What kind of random string is asked for: its length and the classes of
/// characters it draws from.
#[derive(Clone, Copy, Debug)]
pub struct GeneratorSettings {
    /// The number of characters.
    pub length: usize,
    /// Digits may occur (must, where `strict`).
    pub numbers: bool,
    /// Lower-case letters may occur (must, where `strict`).
    pub lowercase_letters: bool,
    /// Upper-case letters may occur (must, where `strict`).
    pub uppercase_letters: bool,
    /// Punctuation may occur (must, where `strict`).
    pub symbols: bool,
    /// Blanks may occur (must, where `strict`).
    pub spaces: bool,
    /// The characters that are easily mistaken for one another stay out.
    pub exclude_similar_characters: bool,
    /// Every class that may occur does occur.
    pub strict: bool,
}

/// A digit.
pub open spec fn is_number(c: char) -> bool {
    '0' <= c <= '9'
}

/// A lower-case letter of the Latin alphabet.
pub open spec fn is_lowercase(c: char) -> bool {
    'a' <= c <= 'z'
}

/// An upper-case letter of the Latin alphabet.
pub open spec fn is_uppercase(c: char) -> bool {
    'A' <= c <= 'Z'
}

/// A printable ASCII character that is no letter, digit or blank.
pub open spec fn is_symbol(c: char) -> bool {
    '!' <= c <= '/' || ':' <= c <= '@' || '[' <= c <= '`' || '{' <= c <= '~'
}

/// One of the characters that are easily mistaken for one another.
pub open spec fn is_similar(c: char) -> bool {
    c == 'i' || c == 'I' || c == '1' || c == 'l' || c == 'o' || c == 'O' || c == '0' || c == '"'
        || c == '\'' || c == '`' || c == '|'
}

impl GeneratorSettings {
    /// How many classes of characters are switched on.
    pub open spec fn classes(self) -> nat {
        (if self.numbers {
            1nat
        } else {
            0
        }) + (if self.lowercase_letters {
            1nat
        } else {
            0
        }) + (if self.uppercase_letters {
            1nat
        } else {
            0
        }) + (if self.symbols {
            1nat
        } else {
            0
        }) + (if self.spaces {
            1nat
        } else {
            0
        })
    }

    /// Whether a string can be generated at all: it has a length, a class to
    /// draw from, and room for each class that must occur.
    pub open spec fn usable(self) -> bool {
        &&& self.length > 0
        &&& self.classes() > 0
        &&& self.strict ==> self.length >= self.classes()
    }

    /// Whether `c` may occur in a generated string.
    pub open spec fn allows(self, c: char) -> bool {
        &&& (self.numbers && is_number(c)) || (self.lowercase_letters && is_lowercase(c)) || (
        self.uppercase_letters && is_uppercase(c)) || (self.symbols && is_symbol(c)) || (
        self.spaces && c == ' ')
        &&& self.exclude_similar_characters ==> !is_similar(c)
    }

    /// Whether `v` is a string that these settings can give.
    pub open spec fn produces(self, v: Seq<char>) -> bool {
        &&& v.len() == self.length
        &&& forall|i: int| 0 <= i < v.len() ==> self.allows(#[trigger] v[i])
        &&& self.strict ==> {
            &&& self.numbers ==> exists|i: int| 0 <= i < v.len() && is_number(#[trigger] v[i])
            &&& self.lowercase_letters ==> exists|i: int|
                0 <= i < v.len() && is_lowercase(#[trigger] v[i])
            &&& self.uppercase_letters ==> exists|i: int|
                0 <= i < v.len() && is_uppercase(#[trigger] v[i])
            &&& self.symbols ==> exists|i: int| 0 <= i < v.len() && is_symbol(#[trigger] v[i])
            &&& self.spaces ==> exists|i: int| 0 <= i < v.len() && #[trigger] v[i] == ' '
        }
    }
}

/// The settings of this subsystem for a string of `length` characters:
/// digits, letters of both cases and punctuation, each of them present, no
/// blanks and no characters that are easily mistaken.
pub open spec fn standard_settings(length: usize) -> GeneratorSettings {
    GeneratorSettings {
        length,
        numbers: true,
        lowercase_letters: true,
        uppercase_letters: true,
        symbols: true,
        spaces: false,
        exclude_similar_characters: true,
        strict: true,
    }
}

/// Whether `v` can be the secret of a freshly generated token.
pub open spec fn is_token_value(v: Seq<char>) -> bool {
    standard_settings(TOKEN_LENGTH).produces(v)
}

/// Whether `v` can be a freshly generated salt.
pub open spec fn is_salt(v: Seq<char>) -> bool {
    standard_settings(SALT_LENGTH).produces(v)
}

/// Creates fixed length password generator.
pub fn get_password_generator(length: usize) -> (settings: GeneratorSettings)
    ensures
        settings == standard_settings(length),
{
    GeneratorSettings {
        length,
        numbers: true,
        lowercase_letters: true,
        uppercase_letters: true,
        symbols: true,
        spaces: false,
        exclude_similar_characters: true,
        strict: true,
    }
}

/// Calls `passwords::PasswordGenerator::generate_one` with these settings.
/// Trusted: it refuses exactly the settings that are not usable, and a string
/// that it returns has the length asked for, holds only characters of the
/// classes switched on (without the similar ones where they are excluded)
/// and, where the settings are strict, at least one of each such class.
#[verifier::external_body]
fn generate_one(settings: &GeneratorSettings) -> (r: Result<String, &'static str>)
    ensures
        r is Err <==> !settings.usable(),
        r matches Ok(s) ==> settings.produces(s@),
{
    PasswordGenerator {
        length: settings.length,
        numbers: settings.numbers,
        lowercase_letters: settings.lowercase_letters,
        uppercase_letters: settings.uppercase_letters,
        symbols: settings.symbols,
        spaces: settings.spaces,
        exclude_similar_characters: settings.exclude_similar_characters,
        strict: settings.strict,
    }.generate_one()
}

/// Calls `chrono::Utc::now` and `DateTime::timestamp`: the current second
/// since the Unix epoch. Trusted; nothing is claimed of the number.
#[verifier::external_body]
pub(crate) fn current_timestamp() -> i64 {
    Utc::now().timestamp()
}

/// The token of `user_id` with the secret `value` issued at `issued_at`, or
/// the generation error where no secret was produced.
pub fn token_of(user_id: UserId, value: Result<String, &'static str>, issued_at: i64) -> (r:
    Result<UserToken, AuthError>)
    ensures
        match value {
            Ok(s) => r matches Ok(t) && t@ == (TokenView { user_id, value: s@, issued_at }),
            Err(_) => r == Err::<UserToken, AuthError>(AuthError::Generation),
        },
{
    match value {
        Ok(s) => Ok(UserToken::from_parts(user_id, s, issued_at)),
        Err(_) => Err(AuthError::Generation),
    }
}

/// Generates new token for user: a fresh random secret of `TOKEN_LENGTH`
/// characters, issued at the current second.
pub fn generate_token(user_id: UserId) -> (r: Result<UserToken, AuthError>)
    ensures
        r matches Ok(t) && t@.user_id == user_id && is_token_value(t@.value),
{
    let value = generate_one(&get_password_generator(TOKEN_LENGTH));
    token_of(user_id, value, current_timestamp())
}

/// Generates salt for new user: a fresh random string of `SALT_LENGTH`
/// characters.
pub fn generate_salt() -> (r: Result<String, AuthError>)
    ensures
        r matches Ok(s) && is_salt(s@),
{
    match generate_one(&get_password_generator(SALT_LENGTH)) {
        Ok(s) => Ok(s),
        Err(_) => Err(AuthError::Generation),
    }
}

impl UserToken {
    /// A fresh token for `id`.
    pub fn new(id: UserId) -> (r: Result<UserToken, AuthError>)
        ensures
            r matches Ok(t) && t@.user_id == id && is_token_value(t@.value),
    {
        generate_token(id)
    }
}

} // verus!
