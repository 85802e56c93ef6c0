//! Session tokens for a networked service: password checks against salted
//! SHA3-256 digests, bearer tokens with a fixed wire form, and the decisions
//! that issue, validate and revoke them against a shared store of keyed lists.
//!
//! The store is a Redis-like service. This crate decides what to ask of it
//! and what its replies mean; sending the commands is left to the caller:
//!
//! ```text
//! let mut step = check_token(&token, read(&token));
//! loop {
//!     match step {
//!         Step::Ask(command, pending) => step = resume(pending, send(command)),
//!         Step::Finished(result) => break result,
//!     }
//! }
//! ```

pub mod concurrency;
pub mod credentials;
pub mod generator;
pub mod laws;
pub mod session;
pub mod store;
pub mod text;
pub mod token;
pub mod wire;

pub use credentials::{hash_password, hashes_eq, same_bytes};
pub use generator::{generate_salt, generate_token, get_password_generator, GeneratorSettings};
pub use session::{
    check_and_remove_token, check_token, is_expired, judge_age, log_in, open_session, resume,
    store_token, Outcome, Pending, Step,
};
pub use store::{StoreCommand, StoreReply};
pub use token::{
    get_user_tokens_list_name, ApiToken, AuthError, UserId, UserToken, DAYS_VALID,
    MAX_TOKENS_PER_USER, SALT_LENGTH, SECONDS_PER_DAY, TOKEN_LENGTH,
};
pub use wire::encode;
