//! What the operations do to a store that works, when each runs alone from
//! its first step to its end.
//!
//! The store here is the mathematical one of `ListStore`: it carries out
//! each command at once and never fails. Over it every operation is a
//! function of the store, the random secret and the clock, and the laws
//! below say which.

use crate::credentials::digest_matches;
use crate::session::{
    check_and_remove_token_step, check_token_step, expired, log_in_step, resume_step, OutcomeView,
    StepView,
};
use crate::store::{trimmed, ListStore};
use crate::token::{store_key, AuthError, TokenView, UserId, MAX_TOKENS_PER_USER};
use crate::wire::{lemma_wire_form_injective, wire_form};
use vstd::prelude::*;

verus! {

/// Carries an operation on from `step` against `store`, for at most
/// `rounds` commands: the store at the end and the operation's result. A
/// token generated on the way gets the secret `secret` and the time `now`,
/// and ages are judged at `now`.
pub open spec fn carried_on(
    store: ListStore,
    step: StepView,
    secret: Option<Seq<char>>,
    now: i64,
    rounds: nat,
) -> (ListStore, Result<OutcomeView, AuthError>)
    decreases rounds,
{
    match step {
        StepView::Finished(result) => (store, result),
        StepView::Ask(command, pending) => if rounds == 0 {
            (store, Err(AuthError::StoreError))
        } else {
            let (next, reply) = store.execute(command);
            carried_on(
                next,
                resume_step(pending, reply, secret, now),
                secret,
                now,
                (rounds - 1) as nat,
            )
        },
    }
}

/// Carries an operation out against `store` from its first step `step`. No
/// operation sends more than three commands.
pub open spec fn carried_out(store: ListStore, step: StepView, secret: Option<Seq<char>>, now: i64)
    -> (ListStore, Result<OutcomeView, AuthError>) {
    carried_on(store, step, secret, now, 3)
}

/// The most recent entries of `list` that stay when a token is added: all
/// of them below the limit, else one less than the limit.
pub open spec fn kept(list: Seq<Seq<char>>) -> Seq<Seq<char>> {
    if list.len() >= MAX_TOKENS_PER_USER {
        list.take(MAX_TOKENS_PER_USER - 1)
    } else {
        list
    }
}

/// Whether no list of `store` is longer than the limit.
pub open spec fn bounded(store: ListStore) -> bool {
    forall|key: Seq<char>| #[trigger] store.list(key).len() <= MAX_TOKENS_PER_USER
}

/// Whether `item` stands in `list` at one position and no other.
pub open spec fn stands_once(list: Seq<Seq<char>>, item: Seq<char>) -> bool {
    &&& list.contains(item)
    &&& forall|i: int, j: int|
        0 <= i < list.len() && 0 <= j < list.len() && list[i] == item && list[j] == item ==> i
            == j
}

/// An item that stood once in a list is gone when its first occurrence is
/// taken out.
pub proof fn lemma_removed_once(list: Seq<Seq<char>>, item: Seq<char>)
    requires
        stands_once(list, item),
    ensures
        !list.remove_value(item).contains(item),
{
    list.index_of_first_ensures(item);
    let at = list.index_of_first(item)->0;
    let rest = list.remove_value(item);
    list.remove_ensures(at);
    if rest.contains(item) {
        let p = choose|p: int| 0 <= p < rest.len() && rest[p] == item;
        if p < at {
            assert(rest[p] == list[p]);
        } else {
            assert(rest[p] == list[p + 1]);
        }
    }
}

/// The store after a `log_in` of `user_id` with a password that matches,
/// where the new token gets the secret `value` and the time `now`. The
/// token stands at the head of the user's list, before the entries that
/// were kept: all the earlier ones while they were fewer than
/// `MAX_TOKENS_PER_USER`, else the most recent `MAX_TOKENS_PER_USER - 1` of
/// them. No other list changes.
pub open spec fn after_log_in(store: ListStore, user_id: UserId, value: Seq<char>, now: i64)
    -> ListStore {
    let token = TokenView { user_id, value, issued_at: now };
    store.with_list(
        store_key(user_id),
        seq![wire_form(token)] + kept(store.list(store_key(user_id))),
    )
}

/// `log_in` carried out. With a password that does not match, it ends with
/// `InvalidCredential` and the store as it was. With one that matches, it
/// ends with the new token, and the store is the one of `after_log_in`.
pub proof fn lemma_log_in_carried_out(
    store: ListStore,
    password: Seq<u8>,
    salt: Seq<u8>,
    digest: Seq<u8>,
    user_id: UserId,
    value: Seq<char>,
    now: i64,
)
    ensures
        ({
            let token = TokenView { user_id, value, issued_at: now };
            let key = store_key(user_id);
            let (after, result) = carried_out(
                store,
                log_in_step(password, salt, digest, user_id),
                Some(value),
                now,
            );
            if digest_matches(password, salt, digest) {
                &&& result == Ok::<OutcomeView, AuthError>(OutcomeView::LoggedIn(token))
                &&& after == after_log_in(store, user_id, value, now)
            } else {
                &&& result == Err::<OutcomeView, AuthError>(AuthError::InvalidCredential)
                &&& after == store
            }
        }),
{
    reveal_with_fuel(carried_on, 4);
    let key = store_key(user_id);
    let list = store.list(key);
    if digest_matches(password, salt, digest) {
        let (after, result) = carried_out(
            store,
            log_in_step(password, salt, digest, user_id),
            Some(value),
            now,
        );
        if list.len() >= MAX_TOKENS_PER_USER {
            assert(trimmed(list, 0, MAX_TOKENS_PER_USER - 2) =~= kept(list));
        }
        assert(after.lists =~= after_log_in(store, user_id, value, now).lists);
    }
}

/// Sequential issuance respects the limit: where no list was longer than
/// `MAX_TOKENS_PER_USER` before a `log_in`, none is after it, and after a
/// `log_in` that succeeded the user's list is within the limit whatever
/// it held before.
pub proof fn lemma_log_in_keeps_bound(
    store: ListStore,
    password: Seq<u8>,
    salt: Seq<u8>,
    digest: Seq<u8>,
    user_id: UserId,
    value: Seq<char>,
    now: i64,
)
    ensures
        ({
            let (after, result) = carried_out(
                store,
                log_in_step(password, salt, digest, user_id),
                Some(value),
                now,
            );
            &&& result is Ok ==> after.list(store_key(user_id)).len() <= MAX_TOKENS_PER_USER
            &&& bounded(store) ==> bounded(after)
        }),
{
    lemma_log_in_carried_out(store, password, salt, digest, user_id, value, now);
    let key = store_key(user_id);
    let (after, result) = carried_out(
        store,
        log_in_step(password, salt, digest, user_id),
        Some(value),
        now,
    );
    if bounded(store) {
        assert forall|other: Seq<char>| #[trigger]
            after.list(other).len() <= MAX_TOKENS_PER_USER by {
            assert(store.list(other).len() <= MAX_TOKENS_PER_USER);
            assert(store.list(key).len() <= MAX_TOKENS_PER_USER);
        }
    }
}

/// `check_token` carried out for the presented string `wire`, read as
/// `read`. A string that could not be read is `MalformedToken`; one that
/// does not stand, character for character, in the list of the user it
/// names is `UnknownToken`, whatever it was read as; in both cases the
/// store stays as it was. A string that stands there is valid while the
/// age of its token in whole days is below `DAYS_VALID`, and the store
/// stays as it was; from then on it is `ExpiredToken`, and its first
/// occurrence leaves the list.
pub proof fn lemma_check_token_carried_out(
    store: ListStore,
    wire: Seq<char>,
    read: Option<TokenView>,
    now: i64,
)
    ensures
        ({
            let (after, result) = carried_out(store, check_token_step(wire, read), None, now);
            match read {
                None => after == store && result == Err::<OutcomeView, AuthError>(
                    AuthError::MalformedToken,
                ),
                Some(token) => {
                    let key = store_key(token.user_id);
                    if !store.list(key).contains(wire) {
                        after == store && result == Err::<OutcomeView, AuthError>(
                            AuthError::UnknownToken,
                        )
                    } else if expired(token.issued_at, now) {
                        &&& after == store.with_list(key, store.list(key).remove_value(wire))
                        &&& result == Err::<OutcomeView, AuthError>(AuthError::ExpiredToken)
                    } else {
                        after == store && result == Ok::<OutcomeView, AuthError>(
                            OutcomeView::Valid(token.user_id),
                        )
                    }
                },
            }
        }),
{
    reveal_with_fuel(carried_on, 4);
    match read {
        None => {},
        Some(token) => {
            store.list(store_key(token.user_id)).index_of_first_ensures(wire);
        },
    }
}

/// `check_and_remove_token` carried out for the presented string `wire`,
/// read as `read`. A string that could not be read is `MalformedToken`; one
/// that does not stand, character for character, in the list of the user
/// it names is `UnknownToken`, whatever it was read as; in both cases the
/// store stays as it was. A string that stands there is removed, expired
/// or not: its first occurrence leaves the list.
pub proof fn lemma_check_and_remove_token_carried_out(
    store: ListStore,
    wire: Seq<char>,
    read: Option<TokenView>,
    now: i64,
)
    ensures
        ({
            let (after, result) = carried_out(
                store,
                check_and_remove_token_step(wire, read),
                None,
                now,
            );
            match read {
                None => after == store && result == Err::<OutcomeView, AuthError>(
                    AuthError::MalformedToken,
                ),
                Some(token) => {
                    let key = store_key(token.user_id);
                    if !store.list(key).contains(wire) {
                        after == store && result == Err::<OutcomeView, AuthError>(
                            AuthError::UnknownToken,
                        )
                    } else {
                        &&& after == store.with_list(key, store.list(key).remove_value(wire))
                        &&& result == Ok::<OutcomeView, AuthError>(OutcomeView::Removed)
                    }
                },
            }
        }),
{
    reveal_with_fuel(carried_on, 4);
    match read {
        None => {},
        Some(token) => {
            store.list(store_key(token.user_id)).index_of_first_ensures(wire);
        },
    }
}

/// Another writing of a stored token is unknown: where the list of a
/// user holds the string `stored` and nothing else, any other string is
/// `UnknownToken` to `check_token` and to `check_and_remove_token`, also
/// where it reads as the same token, and `stored` stays in the list.
pub proof fn lemma_another_writing_is_unknown(
    store: ListStore,
    stored: Seq<char>,
    wire: Seq<char>,
    token: TokenView,
    now: i64,
)
    requires
        store.list(store_key(token.user_id)) == seq![stored],
        wire != stored,
    ensures
        carried_out(store, check_token_step(wire, Some(token)), None, now) == (
            store,
            Err::<OutcomeView, AuthError>(AuthError::UnknownToken),
        ),
        carried_out(store, check_and_remove_token_step(wire, Some(token)), None, now) == (
            store,
            Err::<OutcomeView, AuthError>(AuthError::UnknownToken),
        ),
{
    let list = store.list(store_key(token.user_id));
    if list.contains(wire) {
        let at = choose|at: int| 0 <= at < list.len() && list[at] == wire;
        assert(list[at] == stored);
    }
    lemma_check_token_carried_out(store, wire, Some(token), now);
    lemma_check_and_remove_token_carried_out(store, wire, Some(token), now);
}

/// Validation and revocation never lengthen a list: where no list was
/// longer than `MAX_TOKENS_PER_USER` before a `check_token` or a
/// `check_and_remove_token`, none is after it.
pub proof fn lemma_checks_keep_bound(
    store: ListStore,
    wire: Seq<char>,
    read: Option<TokenView>,
    now: i64,
)
    requires
        bounded(store),
    ensures
        bounded(carried_out(store, check_token_step(wire, read), None, now).0),
        bounded(carried_out(store, check_and_remove_token_step(wire, read), None, now).0),
{
    lemma_check_token_carried_out(store, wire, read, now);
    lemma_check_and_remove_token_carried_out(store, wire, read, now);
    let checked = carried_out(store, check_token_step(wire, read), None, now).0;
    let removed = carried_out(store, check_and_remove_token_step(wire, read), None, now).0;
    match read {
        None => {},
        Some(token) => {
            let key = store_key(token.user_id);
            let list = store.list(key);
            list.index_of_first_ensures(wire);
            assert(list.remove_value(wire).len() <= list.len());
            assert(list.len() <= MAX_TOKENS_PER_USER);
            assert forall|other: Seq<char>| #[trigger]
                checked.list(other).len() <= MAX_TOKENS_PER_USER by {
                assert(store.list(other).len() <= MAX_TOKENS_PER_USER);
            }
            assert forall|other: Seq<char>| #[trigger]
                removed.list(other).len() <= MAX_TOKENS_PER_USER by {
                assert(store.list(other).len() <= MAX_TOKENS_PER_USER);
            }
        },
    }
}

/// A token is valid right after it was issued: `check_token` on the wire
/// form of the token that `log_in` returned, read as that token, gives its
/// user, while its age in whole days is below `DAYS_VALID`, and leaves the
/// store as `log_in` left it.
pub proof fn lemma_issued_token_is_valid(
    store: ListStore,
    password: Seq<u8>,
    salt: Seq<u8>,
    digest: Seq<u8>,
    user_id: UserId,
    value: Seq<char>,
    now: i64,
    later: i64,
)
    requires
        !expired(now, later),
    ensures
        digest_matches(password, salt, digest) ==> ({
            let token = TokenView { user_id, value, issued_at: now };
            let (after, issued) = carried_out(
                store,
                log_in_step(password, salt, digest, user_id),
                Some(value),
                now,
            );
            let (last, checked) = carried_out(
                after,
                check_token_step(wire_form(token), Some(token)),
                None,
                later,
            );
            &&& issued == Ok::<OutcomeView, AuthError>(OutcomeView::LoggedIn(token))
            &&& checked == Ok::<OutcomeView, AuthError>(OutcomeView::Valid(user_id))
            &&& last == after
        }),
{
    let token = TokenView { user_id, value, issued_at: now };
    let wire = wire_form(token);
    lemma_log_in_carried_out(store, password, salt, digest, user_id, value, now);
    let (after, issued) = carried_out(
        store,
        log_in_step(password, salt, digest, user_id),
        Some(value),
        now,
    );
    if digest_matches(password, salt, digest) {
        assert(after.list(store_key(user_id))[0] == wire);
        lemma_check_token_carried_out(after, wire, Some(token), later);
    }
}

/// An expired token is purged once: where the presented string stands once
/// in the list of its user, `check_token` ends with `ExpiredToken` and
/// takes it out, and both `check_token` and `check_and_remove_token` then
/// end with `UnknownToken`, at whatever time they run.
pub proof fn lemma_expired_token_is_purged(
    store: ListStore,
    wire: Seq<char>,
    token: TokenView,
    now: i64,
    later: i64,
)
    requires
        stands_once(store.list(store_key(token.user_id)), wire),
        expired(token.issued_at, now),
    ensures
        ({
            let key = store_key(token.user_id);
            let (after, first) = carried_out(
                store,
                check_token_step(wire, Some(token)),
                None,
                now,
            );
            &&& first == Err::<OutcomeView, AuthError>(AuthError::ExpiredToken)
            &&& after.list(key) == store.list(key).remove_value(wire)
            &&& !after.list(key).contains(wire)
            &&& carried_out(after, check_token_step(wire, Some(token)), None, later) == (
                after,
                Err::<OutcomeView, AuthError>(AuthError::UnknownToken),
            )
            &&& carried_out(after, check_and_remove_token_step(wire, Some(token)), None, later)
                == (after, Err::<OutcomeView, AuthError>(AuthError::UnknownToken))
        }),
{
    lemma_removed_once(store.list(store_key(token.user_id)), wire);
    lemma_check_token_carried_out(store, wire, Some(token), now);
    let (after, first) = carried_out(store, check_token_step(wire, Some(token)), None, now);
    lemma_check_token_carried_out(after, wire, Some(token), later);
    lemma_check_and_remove_token_carried_out(after, wire, Some(token), later);
}

/// A revoked token is unknown: where the presented string stands once in
/// the list of its user, `check_and_remove_token` succeeds, expired or
/// not, and takes it out, and both `check_token` and a second
/// `check_and_remove_token` then end with `UnknownToken`, at whatever time
/// they run.
pub proof fn lemma_revoked_token_is_unknown(
    store: ListStore,
    wire: Seq<char>,
    token: TokenView,
    now: i64,
    later: i64,
)
    requires
        stands_once(store.list(store_key(token.user_id)), wire),
    ensures
        ({
            let key = store_key(token.user_id);
            let (after, first) = carried_out(
                store,
                check_and_remove_token_step(wire, Some(token)),
                None,
                now,
            );
            &&& first == Ok::<OutcomeView, AuthError>(OutcomeView::Removed)
            &&& after.list(key) == store.list(key).remove_value(wire)
            &&& !after.list(key).contains(wire)
            &&& carried_out(after, check_token_step(wire, Some(token)), None, later) == (
                after,
                Err::<OutcomeView, AuthError>(AuthError::UnknownToken),
            )
            &&& carried_out(after, check_and_remove_token_step(wire, Some(token)), None, later)
                == (after, Err::<OutcomeView, AuthError>(AuthError::UnknownToken))
        }),
{
    lemma_removed_once(store.list(store_key(token.user_id)), wire);
    lemma_check_and_remove_token_carried_out(store, wire, Some(token), now);
    let (after, first) = carried_out(
        store,
        check_and_remove_token_step(wire, Some(token)),
        None,
        now,
    );
    lemma_check_token_carried_out(after, wire, Some(token), later);
    lemma_check_and_remove_token_carried_out(after, wire, Some(token), later);
}

/// The oldest token makes room: after `MAX_TOKENS_PER_USER` further
/// `log_in`s of its user a token is unknown, whatever the list held before,
/// while the tokens of those `log_in`s are valid until they expire. Each
/// token is presented in its wire form and read as itself.
pub proof fn lemma_oldest_token_is_evicted(
    store: ListStore,
    user_id: UserId,
    first: TokenView,
    second: TokenView,
    third: TokenView,
    fourth: TokenView,
    later: i64,
)
    requires
        first.user_id == user_id,
        second.user_id == user_id,
        third.user_id == user_id,
        fourth.user_id == user_id,
        first != second,
        first != third,
        first != fourth,
    ensures
        ({
            let s1 = after_log_in(store, user_id, first.value, first.issued_at);
            let s2 = after_log_in(s1, user_id, second.value, second.issued_at);
            let s3 = after_log_in(s2, user_id, third.value, third.issued_at);
            let s4 = after_log_in(s3, user_id, fourth.value, fourth.issued_at);
            &&& s4.list(store_key(user_id)) == seq![
                wire_form(fourth),
                wire_form(third),
                wire_form(second),
            ]
            &&& carried_out(s4, check_token_step(wire_form(first), Some(first)), None, later).1
                == Err::<OutcomeView, AuthError>(AuthError::UnknownToken)
            &&& !expired(second.issued_at, later) ==> carried_out(
                s4,
                check_token_step(wire_form(second), Some(second)),
                None,
                later,
            ).1 == Ok::<OutcomeView, AuthError>(OutcomeView::Valid(user_id))
            &&& !expired(third.issued_at, later) ==> carried_out(
                s4,
                check_token_step(wire_form(third), Some(third)),
                None,
                later,
            ).1 == Ok::<OutcomeView, AuthError>(OutcomeView::Valid(user_id))
            &&& !expired(fourth.issued_at, later) ==> carried_out(
                s4,
                check_token_step(wire_form(fourth), Some(fourth)),
                None,
                later,
            ).1 == Ok::<OutcomeView, AuthError>(OutcomeView::Valid(user_id))
        }),
{
    let key = store_key(user_id);
    let s1 = after_log_in(store, user_id, first.value, first.issued_at);
    let s2 = after_log_in(s1, user_id, second.value, second.issued_at);
    let s3 = after_log_in(s2, user_id, third.value, third.issued_at);
    let s4 = after_log_in(s3, user_id, fourth.value, fourth.issued_at);
    let expected = seq![wire_form(fourth), wire_form(third), wire_form(second)];
    assert(s1.list(key)[0] == wire_form(first));
    assert(s2.list(key)[0] == wire_form(second));
    assert(s2.list(key)[1] == wire_form(first));
    assert(s3.list(key).len() >= 3);
    assert(s3.list(key)[0] == wire_form(third));
    assert(s3.list(key)[1] == wire_form(second));
    assert(s4.list(key) =~= expected);
    if wire_form(first) == wire_form(second) {
        lemma_wire_form_injective(first, second);
    }
    if wire_form(first) == wire_form(third) {
        lemma_wire_form_injective(first, third);
    }
    if wire_form(first) == wire_form(fourth) {
        lemma_wire_form_injective(first, fourth);
    }
    assert(expected[0] == wire_form(fourth));
    assert(expected[1] == wire_form(third));
    assert(expected[2] == wire_form(second));
    lemma_check_token_carried_out(s4, wire_form(first), Some(first), later);
    lemma_check_token_carried_out(s4, wire_form(second), Some(second), later);
    lemma_check_token_carried_out(s4, wire_form(third), Some(third), later);
    lemma_check_token_carried_out(s4, wire_form(fourth), Some(fourth), later);
}

} // verus!
