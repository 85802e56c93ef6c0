//! Log-ins of one user that run at the same time.
//!
//! The store carries out one command at a time, but a `log_in` is three
//! commands, and the commands of several `log_in`s may reach the store in
//! any order. The user's list can then grow beyond the limit: by one entry
//! less than the number of `log_in`s that were under way together, and no
//! further.

use crate::session::{log_in_step, resume_step, PendingView, StepView};
use crate::store::{CommandView, ListStore};
use crate::token::{store_key, UserId, MAX_TOKENS_PER_USER};
use vstd::prelude::*;

verus! {

/// The `log_in`s of one user that are under way, each at the command it
/// will send next, and the store they run against.
pub struct Race {
    pub user_id: UserId,
    pub store: ListStore,
    pub flying: Seq<StepView>,
}

/// Something that happens in a race.
pub enum Event {
    /// A `log_in` begins with this password, salt and digest.
    Begin { password: Seq<u8>, salt: Seq<u8>, digest: Seq<u8> },
    /// The store carries out the next command of the `log_in` at `index`,
    /// which goes on to its next step. A token generated in that step gets
    /// the secret `secret` and the time `now`.
    Advance { index: int, secret: Option<Seq<char>>, now: i64 },
}

/// Whether `step` is a step of a `log_in` of `user_id` that sends a command.
pub open spec fn is_log_in_ask(step: StepView, user_id: UserId) -> bool {
    match step {
        StepView::Ask(command, pending) => {
            let key = store_key(user_id);
            ||| command == (CommandView::Length { key }) && pending == (PendingView::ListLength {
                user_id,
            })
            ||| command == (CommandView::Trim { key, start: 0, stop: MAX_TOKENS_PER_USER - 2 })
                && pending == (PendingView::ListTrimmed { user_id })
            ||| command matches CommandView::PushFront { key: at, item } && at == key
                && pending matches PendingView::TokenStored { token }
        },
        StepView::Finished(_) => false,
    }
}

/// One for a step that puts a token into the list, zero for any other.
pub open spec fn push_of(step: StepView) -> nat {
    match step {
        StepView::Ask(CommandView::PushFront { key, item }, _) => 1,
        _ => 0,
    }
}

/// How many of the steps put a token into the list.
pub open spec fn pushes(steps: Seq<StepView>) -> nat
    decreases steps.len(),
{
    if steps.len() == 0 {
        0
    } else {
        pushes(steps.drop_last()) + push_of(steps.last())
    }
}

impl Race {
    /// The user's list.
    pub open spec fn list(self) -> Seq<Seq<char>> {
        self.store.list(store_key(self.user_id))
    }

    /// The race after `event`. A `log_in` that is refused at its first
    /// step never gets under way, and an event for a `log_in` that is not
    /// under way changes nothing.
    pub open spec fn after(self, event: Event) -> Race {
        match event {
            Event::Begin { password, salt, digest } => {
                let first = log_in_step(password, salt, digest, self.user_id);
                if first is Ask {
                    Race { flying: self.flying.push(first), ..self }
                } else {
                    self
                }
            },
            Event::Advance { index, secret, now } => {
                if 0 <= index < self.flying.len() {
                    match self.flying[index] {
                        StepView::Ask(command, pending) => {
                            let (store, reply) = self.store.execute(command);
                            let next = resume_step(pending, reply, secret, now);
                            if next is Ask {
                                Race { store, flying: self.flying.update(index, next), ..self }
                            } else {
                                Race { store, flying: self.flying.remove(index), ..self }
                            }
                        },
                        StepView::Finished(_) => self,
                    }
                } else {
                    self
                }
            },
        }
    }

    /// The race after `events`, one after the other. An event that would
    /// bring more than `most` `log_in`s under way is passed over.
    pub open spec fn after_all(self, events: Seq<Event>, most: nat) -> Race
        decreases events.len(),
    {
        if events.len() == 0 {
            self
        } else {
            let before = self.after_all(events.drop_last(), most);
            let after = before.after(events.last());
            if after.flying.len() <= most {
                after
            } else {
                before
            }
        }
    }

    /// What holds of a race in which at most `most` `log_in`s are ever
    /// under way together: the list, with the tokens that are about to be
    /// put into it, stays within the limit and `most - 1` more.
    pub open spec fn within(self, most: nat) -> bool {
        &&& self.flying.len() <= most
        &&& forall|i: int|
            0 <= i < self.flying.len() ==> is_log_in_ask(#[trigger] self.flying[i], self.user_id)
        &&& self.list().len() + pushes(self.flying) <= MAX_TOKENS_PER_USER - 1 + most
    }
}

proof fn lemma_pushes_bound(steps: Seq<StepView>)
    ensures
        pushes(steps) <= steps.len(),
    decreases steps.len(),
{
    if steps.len() > 0 {
        lemma_pushes_bound(steps.drop_last());
    }
}

proof fn lemma_pushes_push(steps: Seq<StepView>, step: StepView)
    ensures
        pushes(steps.push(step)) == pushes(steps) + push_of(step),
{
    assert(steps.push(step).drop_last() =~= steps);
}

proof fn lemma_pushes_update(steps: Seq<StepView>, i: int, step: StepView)
    requires
        0 <= i < steps.len(),
    ensures
        pushes(steps.update(i, step)) + push_of(steps[i]) == pushes(steps) + push_of(step),
    decreases steps.len(),
{
    let updated = steps.update(i, step);
    if i == steps.len() - 1 {
        assert(updated.drop_last() =~= steps.drop_last());
    } else {
        assert(updated.drop_last() =~= steps.drop_last().update(i, step));
        lemma_pushes_update(steps.drop_last(), i, step);
    }
}

proof fn lemma_pushes_remove(steps: Seq<StepView>, i: int)
    requires
        0 <= i < steps.len(),
    ensures
        pushes(steps.remove(i)) + push_of(steps[i]) == pushes(steps),
    decreases steps.len(),
{
    let removed = steps.remove(i);
    if i == steps.len() - 1 {
        assert(removed =~= steps.drop_last());
    } else {
        assert(removed.drop_last() =~= steps.drop_last().remove(i));
        assert(removed.last() == steps.last());
        lemma_pushes_remove(steps.drop_last(), i);
    }
}

/// A race starts within its bound: with no `log_in` under way and a list
/// within the limit.
pub proof fn lemma_race_starts_within(race: Race, most: nat)
    requires
        most >= 1,
        race.flying.len() == 0,
        race.list().len() <= MAX_TOKENS_PER_USER,
    ensures
        race.within(most),
{
}

/// An event keeps a race within its bound, as long as it brings no more
/// than `most` `log_in`s under way.
pub proof fn lemma_event_keeps_within(race: Race, event: Event, most: nat)
    requires
        race.within(most),
        race.after(event).flying.len() <= most,
    ensures
        race.after(event).within(most),
{
    let after = race.after(event);
    let key = store_key(race.user_id);
    match event {
        Event::Begin { password, salt, digest } => {
            let first = log_in_step(password, salt, digest, race.user_id);
            if first is Ask {
                lemma_pushes_push(race.flying, first);
            }
        },
        Event::Advance { index, secret, now } => {
            if 0 <= index < race.flying.len() {
                let step = race.flying[index];
                assert(is_log_in_ask(step, race.user_id));
                match step {
                    StepView::Ask(command, pending) => {
                        let (store, reply) = race.store.execute(command);
                        let next = resume_step(pending, reply, secret, now);
                        if next is Ask {
                            lemma_pushes_update(race.flying, index, next);
                            lemma_pushes_bound(after.flying);
                            assert forall|i: int| 0 <= i < after.flying.len() implies is_log_in_ask(
                                #[trigger] after.flying[i],
                                race.user_id,
                            ) by {
                                if i != index {
                                    assert(after.flying[i] == race.flying[i]);
                                }
                            }
                        } else {
                            lemma_pushes_remove(race.flying, index);
                            race.flying.remove_ensures(index);
                            assert forall|i: int| 0 <= i < after.flying.len() implies is_log_in_ask(
                                #[trigger] after.flying[i],
                                race.user_id,
                            ) by {
                                if i < index {
                                    assert(after.flying[i] == race.flying[i]);
                                } else {
                                    assert(after.flying[i] == race.flying[i + 1]);
                                }
                            }
                        }
                    },
                    StepView::Finished(_) => {},
                }
            }
        },
    }
}

/// The bound under concurrent issuance: whatever the order in which the
/// commands of a user's `log_in`s reach the store, a list that was within
/// `MAX_TOKENS_PER_USER` never exceeds it by `most` entries or more, where
/// at most `most` `log_in`s are under way together. With one `log_in` at a
/// time the limit is kept exactly.
pub proof fn lemma_concurrent_log_ins_are_bounded(
    store: ListStore,
    user_id: UserId,
    events: Seq<Event>,
    most: nat,
)
    requires
        most >= 1,
        store.list(store_key(user_id)).len() <= MAX_TOKENS_PER_USER,
    ensures
        ({
            let race = Race { user_id, store, flying: Seq::empty() };
            &&& race.after_all(events, most).within(most)
            &&& race.after_all(events, most).list().len() <= MAX_TOKENS_PER_USER + most - 1
        }),
    decreases events.len(),
{
    let race = Race { user_id, store, flying: Seq::empty() };
    if events.len() == 0 {
        lemma_race_starts_within(race, most);
    } else {
        lemma_concurrent_log_ins_are_bounded(store, user_id, events.drop_last(), most);
        let before = race.after_all(events.drop_last(), most);
        if before.after(events.last()).flying.len() <= most {
            lemma_event_keeps_within(before, events.last(), most);
        }
    }
}

} // verus!
