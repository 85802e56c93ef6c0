//! Issuing, validating and revoking tokens against the list store.
//!
//! The store is reached over the network, so no operation here touches it.
//! Each operation is a short exchange instead: `log_in`, `check_token` and
//! `check_and_remove_token` decide the first step, and `resume` decides the
//! next one from the store's reply. A step either asks for one command to
//! be sent, or ends the operation with its result. The caller sends the
//! command and brings the reply back.
//!
//! A presented token comes as the string that the client sent and as what
//! the caller's JSON reader made of it. The string is what the store is
//! searched for, whatever it was read as; the reading says whose list to
//! search and when the token was issued.

use crate::credentials::{digest_matches, hashes_eq};
use crate::generator::{current_timestamp, generate_token, is_token_value};
use crate::store::{CommandView, ReplyView, StoreCommand, StoreReply};
use crate::token::{
    get_user_tokens_list_name, store_key, ApiToken, AuthError, TokenView, UserId, UserToken,
    DAYS_VALID, MAX_TOKENS_PER_USER, SECONDS_PER_DAY,
};
use crate::wire::{encode, wire_form};
use vstd::prelude::*;
use vstd::utf8::encode_utf8;

verus! {

/// What an operation waits for, with what it needs to go on.
#[derive(Debug)]
pub enum Pending {
    /// `log_in` asked for the length of the user's list.
    ListLength { user_id: UserId },
    /// `log_in` asked to trim the user's list.
    ListTrimmed { user_id: UserId },
    /// `log_in` asked to put the new token at the head of the list.
    TokenStored { token: UserToken },
    /// `check_token` asked where the presented token stands in the list.
    TokenLookedUp { user_id: UserId, issued_at: i64, wire: String },
    /// `check_token` asked to take the expired token out of the list.
    ExpiredRemoved,
    /// `check_and_remove_token` asked where the presented token stands.
    RevokedLookedUp { user_id: UserId, wire: String },
    /// `check_and_remove_token` asked to take the token out of the list.
    RevokedRemoved,
}

/// What an operation waits for, by the characters of its strings.
pub enum PendingView {
    ListLength { user_id: UserId },
    ListTrimmed { user_id: UserId },
    TokenStored { token: TokenView },
    TokenLookedUp { user_id: UserId, issued_at: i64, wire: Seq<char> },
    ExpiredRemoved,
    RevokedLookedUp { user_id: UserId, wire: Seq<char> },
    RevokedRemoved,
}

impl View for Pending {
    type V = PendingView;

    open spec fn view(&self) -> PendingView {
        match self {
            Pending::ListLength { user_id } => PendingView::ListLength { user_id: *user_id },
            Pending::ListTrimmed { user_id } => PendingView::ListTrimmed { user_id: *user_id },
            Pending::TokenStored { token } => PendingView::TokenStored { token: token@ },
            Pending::TokenLookedUp { user_id, issued_at, wire } => PendingView::TokenLookedUp {
                user_id: *user_id,
                issued_at: *issued_at,
                wire: wire@,
            },
            Pending::ExpiredRemoved => PendingView::ExpiredRemoved,
            Pending::RevokedLookedUp { user_id, wire } => PendingView::RevokedLookedUp {
                user_id: *user_id,
                wire: wire@,
            },
            Pending::RevokedRemoved => PendingView::RevokedRemoved,
        }
    }
}

/// What an operation achieved.
#[derive(Debug)]
pub enum Outcome {
    /// `log_in` issued this token and the store holds it.
    LoggedIn(UserToken),
    /// `check_token` found the token valid; it authenticates this user.
    Valid(UserId),
    /// `check_and_remove_token` took the token out of the store.
    Removed,
}

/// What an operation achieved, by the characters of its strings.
pub enum OutcomeView {
    LoggedIn(TokenView),
    Valid(UserId),
    Removed,
}

impl View for Outcome {
    type V = OutcomeView;

    open spec fn view(&self) -> OutcomeView {
        match self {
            Outcome::LoggedIn(token) => OutcomeView::LoggedIn(token@),
            Outcome::Valid(user_id) => OutcomeView::Valid(*user_id),
            Outcome::Removed => OutcomeView::Removed,
        }
    }
}

/// The next step of an operation.
#[derive(Debug)]
pub enum Step {
    /// Send this command to the store, then `resume` with its reply.
    Ask(StoreCommand, Pending),
    /// The operation has ended.
    Finished(Result<Outcome, AuthError>),
}

/// The next step of an operation, by the characters of its strings.
pub enum StepView {
    Ask(CommandView, PendingView),
    Finished(Result<OutcomeView, AuthError>),
}

impl View for Step {
    type V = StepView;

    open spec fn view(&self) -> StepView {
        match self {
            Step::Ask(command, pending) => StepView::Ask(command@, pending@),
            Step::Finished(Ok(outcome)) => StepView::Finished(Ok(outcome@)),
            Step::Finished(Err(error)) => StepView::Finished(Err(*error)),
        }
    }
}

/// The whole days in a span of seconds, rounded towards zero.
pub open spec fn whole_days(seconds: int) -> int {
    if seconds >= 0 {
        seconds / (SECONDS_PER_DAY as int)
    } else {
        -((-seconds) / (SECONDS_PER_DAY as int))
    }
}

/// Whether a token issued at `issued_at` has outlived its validity window
/// at `now`: its age in whole days has reached `DAYS_VALID`.
pub open spec fn expired(issued_at: i64, now: i64) -> bool {
    whole_days(now - issued_at) >= DAYS_VALID
}

/// A token expires when the seconds of `DAYS_VALID` days have passed since
/// it was issued, and not before.
pub proof fn lemma_expired_by_seconds(issued_at: i64, now: i64)
    ensures
        expired(issued_at, now) <==> now - issued_at >= DAYS_VALID * SECONDS_PER_DAY,
{
}

/// The step that ends an operation with `error`.
pub open spec fn refused(error: AuthError) -> StepView {
    StepView::Finished(Err(error))
}

/// The first step of `log_in`: nothing is asked of the store unless the
/// password matches.
pub open spec fn log_in_step(
    password: Seq<u8>,
    salt: Seq<u8>,
    digest: Seq<u8>,
    user_id: UserId,
) -> StepView {
    admission_step(digest_matches(password, salt, digest), user_id)
}

/// The step behind the check of the password: the length of the user's
/// list is asked for where the password was accepted.
pub open spec fn admission_step(accepted: bool, user_id: UserId) -> StepView {
    if accepted {
        StepView::Ask(
            CommandView::Length { key: store_key(user_id) },
            PendingView::ListLength { user_id },
        )
    } else {
        refused(AuthError::InvalidCredential)
    }
}

/// The first step of `check_token` for the presented string `wire`, which
/// was read as `read`: a string that could not be read is refused, any
/// other is looked up as it stands in the list of the user it names.
pub open spec fn check_token_step(wire: Seq<char>, read: Option<TokenView>) -> StepView {
    match read {
        Some(token) => StepView::Ask(
            CommandView::FindPosition { key: store_key(token.user_id), item: wire },
            PendingView::TokenLookedUp {
                user_id: token.user_id,
                issued_at: token.issued_at,
                wire,
            },
        ),
        None => refused(AuthError::MalformedToken),
    }
}

/// The first step of `check_and_remove_token` for the presented string
/// `wire`, which was read as `read`.
pub open spec fn check_and_remove_token_step(wire: Seq<char>, read: Option<TokenView>)
    -> StepView {
    match read {
        Some(token) => StepView::Ask(
            CommandView::FindPosition { key: store_key(token.user_id), item: wire },
            PendingView::RevokedLookedUp { user_id: token.user_id, wire },
        ),
        None => refused(AuthError::MalformedToken),
    }
}

/// The step that puts a new token into the store: with the secret `value`
/// issued at `now`, or the end of the operation where none was generated.
pub open spec fn store_step(user_id: UserId, secret: Option<Seq<char>>, now: i64) -> StepView {
    match secret {
        Some(value) => {
            let token = TokenView { user_id, value, issued_at: now };
            StepView::Ask(
                CommandView::PushFront { key: store_key(user_id), item: wire_form(token) },
                PendingView::TokenStored { token },
            )
        },
        None => refused(AuthError::Generation),
    }
}

/// The step behind a successful lookup in `check_token`: an expired token
/// is taken out of the list, another one is valid.
pub open spec fn age_step(user_id: UserId, issued_at: i64, wire: Seq<char>, now: i64) -> StepView {
    if expired(issued_at, now) {
        StepView::Ask(
            CommandView::RemoveOne { key: store_key(user_id), item: wire },
            PendingView::ExpiredRemoved,
        )
    } else {
        StepView::Finished(Ok(OutcomeView::Valid(user_id)))
    }
}

/// The step that follows `reply` for an operation that waits as `pending`
/// says, where a token generated now gets the secret `secret` and the clock
/// stands at `now`. A list that has reached the limit is trimmed to its
/// `MAX_TOKENS_PER_USER - 1` most recent entries, so that the new token
/// brings it to the limit. A reply of another kind than the one awaited
/// counts as a failure of the store.
pub open spec fn resume_step(
    pending: PendingView,
    reply: ReplyView,
    secret: Option<Seq<char>>,
    now: i64,
) -> StepView {
    match pending {
        PendingView::ListLength { user_id } => match reply {
            ReplyView::Length(length) => if length >= MAX_TOKENS_PER_USER {
                StepView::Ask(
                    CommandView::Trim {
                        key: store_key(user_id),
                        start: 0,
                        stop: MAX_TOKENS_PER_USER - 2,
                    },
                    PendingView::ListTrimmed { user_id },
                )
            } else {
                store_step(user_id, secret, now)
            },
            _ => refused(AuthError::StoreError),
        },
        PendingView::ListTrimmed { user_id } => match reply {
            ReplyView::Done => store_step(user_id, secret, now),
            _ => refused(AuthError::StoreError),
        },
        PendingView::TokenStored { token } => match reply {
            ReplyView::Done => StepView::Finished(Ok(OutcomeView::LoggedIn(token))),
            _ => refused(AuthError::StoreError),
        },
        PendingView::TokenLookedUp { user_id, issued_at, wire } => match reply {
            ReplyView::Position(Some(_)) => age_step(user_id, issued_at, wire, now),
            ReplyView::Position(None) => refused(AuthError::UnknownToken),
            _ => refused(AuthError::StoreError),
        },
        PendingView::ExpiredRemoved => match reply {
            ReplyView::Done => refused(AuthError::ExpiredToken),
            _ => refused(AuthError::StoreError),
        },
        PendingView::RevokedLookedUp { user_id, wire } => match reply {
            ReplyView::Position(Some(_)) => StepView::Ask(
                CommandView::RemoveOne { key: store_key(user_id), item: wire },
                PendingView::RevokedRemoved,
            ),
            ReplyView::Position(None) => refused(AuthError::UnknownToken),
            _ => refused(AuthError::StoreError),
        },
        PendingView::RevokedRemoved => match reply {
            ReplyView::Done => StepView::Finished(Ok(OutcomeView::Removed)),
            _ => refused(AuthError::StoreError),
        },
    }
}

/// Whether the step behind `reply` generates a token.
pub open spec fn generates(pending: PendingView, reply: ReplyView) -> bool {
    match pending {
        PendingView::ListLength { user_id } => reply matches ReplyView::Length(length) && length
            < MAX_TOKENS_PER_USER,
        PendingView::ListTrimmed { user_id } => reply is Done,
        _ => false,
    }
}

/// Whether a token issued at `issued_at` has outlived its validity window
/// at `now`.
pub fn is_expired(issued_at: i64, now: i64) -> (late: bool)
    ensures
        late == expired(issued_at, now),
{
    let age: i128 = now as i128 - issued_at as i128;
    if age < 0 {
        false
    } else {
        age / (SECONDS_PER_DAY as i128) >= DAYS_VALID as i128
    }
}

/// Authorizes the user by creating a new token for him if the data is
/// correct. This is the first step: it checks the password against the
/// salted digest and, where they match, asks for the length of the user's
/// list. `resume` then trims the list where it is full, generates the
/// token, stores it and ends with `Outcome::LoggedIn`.
pub fn log_in(
    user_login: String,
    salt_db: &[u8],
    hash_db: &[u8],
    possible_user_id: UserId,
) -> (step: Step)
    ensures
        step@ == log_in_step(encode_utf8(user_login@), salt_db@, hash_db@, possible_user_id),
{
    open_session(hashes_eq(user_login.as_str().as_bytes(), salt_db, hash_db), possible_user_id)
}

/// The step behind the check of the password of `user_id`.
pub fn open_session(accepted: bool, user_id: UserId) -> (step: Step)
    ensures
        step@ == admission_step(accepted, user_id),
{
    if !accepted {
        return Step::Finished(Err(AuthError::InvalidCredential));
    }
    Step::Ask(
        StoreCommand::Length { key: get_user_tokens_list_name(user_id) },
        Pending::ListLength { user_id },
    )
}

/// Validates the user by token via Redis-like DB. This is the first step.
/// `token` is the string as it was presented and `read` the token that it
/// was read as, `None` where it could not be read. The step asks where the
/// string stands in the list of the user that the token names. `resume`
/// then ends with `Outcome::Valid` and the user, or takes an expired token
/// out of the list and ends with `ExpiredToken`.
pub fn check_token(token: &ApiToken, read: Option<UserToken>) -> (step: Step)
    ensures
        step@ == check_token_step(
            token@,
            match read {
                Some(token_data) => Some(token_data@),
                None => None,
            },
        ),
{
    match read {
        Some(token_data) => Step::Ask(
            StoreCommand::FindPosition {
                key: get_user_tokens_list_name(token_data.user()),
                item: token.clone(),
            },
            Pending::TokenLookedUp {
                user_id: token_data.user(),
                issued_at: token_data.birth(),
                wire: token.clone(),
            },
        ),
        None => Step::Finished(Err(AuthError::MalformedToken)),
    }
}

/// Removes the valid token from Redis-like DB. This is the first step.
/// `token` is the string as it was presented and `read` the token that it
/// was read as, `None` where it could not be read. The step asks where the
/// string stands in the list of the user that the token names. `resume`
/// then takes it out, expired or not, and ends with `Outcome::Removed`.
pub fn check_and_remove_token(token: &ApiToken, read: Option<UserToken>) -> (step: Step)
    ensures
        step@ == check_and_remove_token_step(
            token@,
            match read {
                Some(token_data) => Some(token_data@),
                None => None,
            },
        ),
{
    match read {
        Some(token_data) => Step::Ask(
            StoreCommand::FindPosition {
                key: get_user_tokens_list_name(token_data.user()),
                item: token.clone(),
            },
            Pending::RevokedLookedUp { user_id: token_data.user(), wire: token.clone() },
        ),
        None => Step::Finished(Err(AuthError::MalformedToken)),
    }
}

/// The step that puts `fresh` into the store, or ends the operation where
/// no token was generated.
pub fn store_token(fresh: Result<UserToken, AuthError>) -> (step: Step)
    ensures
        match fresh {
            Ok(token) => step@ == store_step(
                token@.user_id,
                Some(token@.value),
                token@.issued_at,
            ),
            Err(error) => step@ == refused(error),
        },
{
    match fresh {
        Ok(token) => {
            let command = StoreCommand::PushFront {
                key: get_user_tokens_list_name(token.user()),
                item: encode(&token),
            };
            Step::Ask(command, Pending::TokenStored { token })
        },
        Err(error) => Step::Finished(Err(error)),
    }
}

/// The step behind a successful lookup of the token `wire` of `user_id`,
/// issued at `issued_at`, when the clock stands at `now`.
pub fn judge_age(user_id: UserId, issued_at: i64, wire: String, now: i64) -> (step: Step)
    ensures
        step@ == age_step(user_id, issued_at, wire@, now),
{
    if is_expired(issued_at, now) {
        Step::Ask(
            StoreCommand::RemoveOne { key: get_user_tokens_list_name(user_id), item: wire },
            Pending::ExpiredRemoved,
        )
    } else {
        Step::Finished(Ok(Outcome::Valid(user_id)))
    }
}

/// The next step of the operation that waits as `pending` says, now that
/// the store has answered `reply`. Where the step generates a token, its
/// secret is random and its time of issue is the clock's; where it judges
/// a token's age, it does so by the clock.
pub fn resume(pending: Pending, reply: StoreReply) -> (step: Step)
    ensures
        exists|secret: Option<Seq<char>>, now: i64|
            {
                &&& step@ == #[trigger] resume_step(pending@, reply@, secret, now)
                &&& generates(pending@, reply@) ==> secret is Some
                &&& secret matches Some(value) ==> is_token_value(value)
            },
{
    let ghost before = pending@;
    let failed = Step::Finished(Err(AuthError::StoreError));
    match pending {
        Pending::ListLength { user_id } => match reply {
            StoreReply::Length(length) => {
                if length >= MAX_TOKENS_PER_USER {
                    let step = Step::Ask(
                        StoreCommand::Trim {
                            key: get_user_tokens_list_name(user_id),
                            start: 0,
                            stop: MAX_TOKENS_PER_USER - 2,
                        },
                        Pending::ListTrimmed { user_id },
                    );
                    assert(step@ == resume_step(before, reply@, None, 0));
                    step
                } else {
                    let fresh = generate_token(user_id);
                    let ghost token = fresh->Ok_0@;
                    let step = store_token(fresh);
                    assert(step@ == resume_step(
                        before,
                        reply@,
                        Some(token.value),
                        token.issued_at,
                    ));
                    step
                }
            },
            _ => {
                assert(failed@ == resume_step(before, reply@, None, 0));
                failed
            },
        },
        Pending::ListTrimmed { user_id } => match reply {
            StoreReply::Done => {
                let fresh = generate_token(user_id);
                let ghost token = fresh->Ok_0@;
                let step = store_token(fresh);
                assert(step@ == resume_step(before, reply@, Some(token.value), token.issued_at));
                step
            },
            _ => {
                assert(failed@ == resume_step(before, reply@, None, 0));
                failed
            },
        },
        Pending::TokenStored { token } => match reply {
            StoreReply::Done => {
                let step = Step::Finished(Ok(Outcome::LoggedIn(token)));
                assert(step@ == resume_step(before, reply@, None, 0));
                step
            },
            _ => {
                assert(failed@ == resume_step(before, reply@, None, 0));
                failed
            },
        },
        Pending::TokenLookedUp { user_id, issued_at, wire } => match reply {
            StoreReply::Position(Some(_)) => {
                let now = current_timestamp();
                let step = judge_age(user_id, issued_at, wire, now);
                assert(step@ == resume_step(before, reply@, None, now));
                step
            },
            StoreReply::Position(None) => {
                let step = Step::Finished(Err(AuthError::UnknownToken));
                assert(step@ == resume_step(before, reply@, None, 0));
                step
            },
            _ => {
                assert(failed@ == resume_step(before, reply@, None, 0));
                failed
            },
        },
        Pending::ExpiredRemoved => match reply {
            StoreReply::Done => {
                let step = Step::Finished(Err(AuthError::ExpiredToken));
                assert(step@ == resume_step(before, reply@, None, 0));
                step
            },
            _ => {
                assert(failed@ == resume_step(before, reply@, None, 0));
                failed
            },
        },
        Pending::RevokedLookedUp { user_id, wire } => match reply {
            StoreReply::Position(Some(_)) => {
                let step = Step::Ask(
                    StoreCommand::RemoveOne { key: get_user_tokens_list_name(user_id), item: wire },
                    Pending::RevokedRemoved,
                );
                assert(step@ == resume_step(before, reply@, None, 0));
                step
            },
            StoreReply::Position(None) => {
                let step = Step::Finished(Err(AuthError::UnknownToken));
                assert(step@ == resume_step(before, reply@, None, 0));
                step
            },
            _ => {
                assert(failed@ == resume_step(before, reply@, None, 0));
                failed
            },
        },
        Pending::RevokedRemoved => match reply {
            StoreReply::Done => {
                let step = Step::Finished(Ok(Outcome::Removed));
                assert(step@ == resume_step(before, reply@, None, 0));
                step
            },
            _ => {
                assert(failed@ == resume_step(before, reply@, None, 0));
                failed
            },
        },
    }
}

} // verus!
