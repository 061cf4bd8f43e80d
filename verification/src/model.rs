use std::time::{Duration, Instant};
use vstd::prelude::*;

use crate::attempt::{Attempt, ChainError, ChainResult};
use crate::trace::Event;
use crate::turn::Progress;

verus! {

/// What a chain is, whatever its providers are: the ordered `(name, provider)` pairs, the
/// predicate that judges errors (`None`: every error causes fallback), and the audit callback.
#[verifier::ext_equal]
pub struct ChainModel<P, F, C> {
    pub providers: Seq<(String, P)>,
    pub should_fall_back: Option<F>,
    pub on_fallback: Option<C>,
}

/// Those of `items` whose entry in `skip` is `false`, in order.
pub open spec fn kept<T>(items: Seq<T>, skip: Seq<bool>) -> Seq<T>
    decreases items.len(),
{
    if items.len() == 0 {
        Seq::empty()
    } else {
        let rest = kept(items.drop_last(), skip.drop_last());
        if skip.last() {
            rest
        } else {
            rest.push(items.last())
        }
    }
}

/// `predicate` may be called with `name`.
pub open spec fn can_answer<Q: FnOnce(&str) -> bool>(predicate: Q, name: Seq<char>) -> bool {
    forall|text: &str| text@ == name ==> #[trigger] predicate.requires((text,))
}

/// `predicate` may answer so to `name`.
pub open spec fn may_answer<Q: FnOnce(&str) -> bool>(
    predicate: Q,
    name: Seq<char>,
    answer: bool,
) -> bool {
    exists|text: &str| text@ == name && #[trigger] predicate.ensures((text,), answer)
}

/// `callback` may be called with these names and `error`.
pub open spec fn can_notify<E, C: FnOnce(&str, &E, &str)>(
    callback: C,
    failed: Seq<char>,
    error: E,
    next: Seq<char>,
) -> bool {
    forall|f: &str, n: &str|
        f@ == failed && n@ == next ==> #[trigger] callback.requires((f, &error, n))
}

/// `callback` may have been called with these names and `error`.
pub open spec fn may_notify<E, C: FnOnce(&str, &E, &str)>(
    callback: C,
    failed: Seq<char>,
    error: E,
    next: Seq<char>,
) -> bool {
    exists|f: &str, n: &str|
        f@ == failed && n@ == next && #[trigger] callback.ensures((f, &error, n), ())
}

/// `duration` is what the clock gave for the time since a reading of it.
pub open spec fn clocked(duration: Duration) -> bool {
    exists|start: Instant|
        call_ensures(Instant::now, (), start) && #[trigger] call_ensures(
            Instant::elapsed,
            (&start,),
            duration,
        )
}

/// The durations that `attempts` record were read off the clock.
pub open spec fn all_clocked<E>(attempts: Seq<Attempt<E>>) -> bool {
    forall|i: int| 0 <= i < attempts.len() ==> clocked((#[trigger] attempts[i]).duration)
}

/// What the providers of a chain may reply, by their place in it.
pub type Replies<O, E> = spec_fn(int, Result<O, E>) -> bool;

impl<P, F, C> ChainModel<P, F, C> {
    pub open spec fn len(self) -> nat {
        self.providers.len()
    }

    pub open spec fn name(self, i: int) -> String {
        self.providers[i].0
    }

    pub open spec fn provider(self, i: int) -> P {
        self.providers[i].1
    }

    /// The text of the provider names, in order.
    pub open spec fn names(self) -> Seq<Seq<char>> {
        Seq::new(self.len(), |i: int| self.name(i)@)
    }

    /// The chain holds the `given` providers in order, each under what its name converts to.
    pub open spec fn lists<S: Into<String>>(self, given: Seq<(S, P)>) -> bool {
        &&& self.len() == given.len()
        &&& forall|i: int|
            #![trigger self.providers[i]]
            0 <= i < given.len() ==> {
                &&& self.provider(i) == given[i].1
                &&& call_ensures(<S as Into<String>>::into, (given[i].0,), self.name(i))
            }
    }

    /// `predicate` may be asked about every provider name.
    pub open spec fn may_ask<Q>(self, predicate: Q) -> bool where Q: FnOnce(&str) -> bool {
        forall|i: int|
            0 <= i < self.len() ==> can_answer(predicate, (#[trigger] self.providers[i]).0@)
    }

    /// `skip` holds one answer of `predicate` for each provider name, in order.
    pub open spec fn answers<Q>(self, predicate: Q, skip: Seq<bool>) -> bool where
        Q: FnOnce(&str) -> bool,
     {
        &&& skip.len() == self.len()
        &&& forall|i: int|
            0 <= i < self.len() ==> may_answer(predicate, self.name(i)@, #[trigger] skip[i])
    }

    /// The chain without the providers that `skip` marks.
    pub open spec fn without(self, skip: Seq<bool>) -> Self {
        ChainModel { providers: kept(self.providers, skip), ..self }
    }

    /// The judgement of `error` may be `falls_back`.
    pub open spec fn may_judge<E>(self, error: E, falls_back: bool) -> bool where F: FnOnce(&E) -> bool {
        match self.should_fall_back {
            Some(f) => f.ensures((&error,), falls_back),
            None => falls_back,
        }
    }

    /// `error` may be judged.
    pub open spec fn can_judge<E>(self, error: E) -> bool where F: FnOnce(&E) -> bool {
        self.should_fall_back matches Some(f) ==> f.requires((&error,))
    }

    /// After provider `i` failed with `error` and the chain fell back, the callback was called with
    /// the name of that provider, the error and the name of the next one. There is nothing to call
    /// it for after the last provider.
    pub open spec fn notified<E>(self, i: int, error: E) -> bool where C: FnOnce(&str, &E, &str) {
        self.on_fallback matches Some(callback) ==> i + 1 < self.len() ==> may_notify(
            callback,
            self.name(i)@,
            error,
            self.name(i + 1)@,
        )
    }

    /// The callback may be called for a fallback from provider `i` that failed with `error`.
    pub open spec fn can_notify<E>(self, i: int, error: E) -> bool where C: FnOnce(&str, &E, &str) {
        self.on_fallback matches Some(callback) ==> i + 1 < self.len() ==> can_notify(
            callback,
            self.name(i)@,
            error,
            self.name(i + 1)@,
        )
    }

    /// Whatever `reply` provider `i` gave, the chain can deal with it.
    pub open spec fn can_settle<O, E>(self, i: int, reply: Result<O, E>) -> bool where
        F: FnOnce(&E) -> bool,
        C: FnOnce(&str, &E, &str),
     {
        reply matches Err(error) ==> {
            &&& self.can_judge(error)
            &&& self.may_judge(error, true) ==> self.can_notify(i, error)
        }
    }

    /// Provider `i` failed, the chain fell back, and `attempt` records it.
    pub open spec fn fell_back<O, E>(
        self,
        replies: Replies<O, E>,
        i: int,
        attempt: Attempt<E>,
    ) -> bool where F: FnOnce(&E) -> bool, C: FnOnce(&str, &E, &str) {
        &&& attempt.name == self.name(i)
        &&& attempt.error matches Some(error) && {
            &&& replies(i, Err(error))
            &&& self.may_judge(error, true)
            &&& self.notified(i, error)
        }
    }

    /// The first providers failed one after the other, the chain fell back each time, and
    /// `failures` records it.
    pub open spec fn fell_through<O, E>(self, replies: Replies<O, E>, failures: Seq<Attempt<E>>) -> bool where
        F: FnOnce(&E) -> bool,
        C: FnOnce(&str, &E, &str),
     {
        &&& failures.len() <= self.len()
        &&& forall|i: int|
            0 <= i < failures.len() ==> self.fell_back(replies, i, #[trigger] failures[i])
    }

    /// Provider `i` may come to be tried: every one before it may have failed so that the chain
    /// fell back.
    pub open spec fn reachable<O, E>(self, replies: Replies<O, E>, i: int) -> bool where
        F: FnOnce(&E) -> bool,
        C: FnOnce(&str, &E, &str),
     {
        exists|failures: Seq<Attempt<E>>|
            failures.len() == i && #[trigger] self.fell_through(replies, failures)
    }

    /// A call of the chain may end with `result`:
    /// - with the reply of the first provider that did not fail, after all before it failed;
    /// - with the error of a provider that does not call for fallback, after all before it failed;
    /// - with the failures of all providers.
    pub open spec fn may_end<O, E>(
        self,
        replies: Replies<O, E>,
        result: Result<ChainResult<O, E>, ChainError<E>>,
    ) -> bool where F: FnOnce(&E) -> bool, C: FnOnce(&str, &E, &str) {
        match result {
            Ok(success) => {
                let k = success.attempts@.len() as int;
                &&& k < self.len()
                &&& self.fell_through(replies, success.attempts@)
                &&& replies(k, Ok(success.value))
                &&& success.provider == self.name(k)
            },
            Err(ChainError::Raised(error)) => exists|failures: Seq<Attempt<E>>|
                {
                    &&& failures.len() < self.len()
                    &&& #[trigger] self.fell_through(replies, failures)
                    &&& replies(failures.len() as int, Err(error))
                    &&& self.may_judge(error, false)
                },
            Err(ChainError::AllProvidersFailed(all)) => {
                &&& all.attempts@.len() == self.len()
                &&& self.fell_through(replies, all.attempts@)
            },
        }
    }

    /// What the providers may reply to `input` where they are functions of it.
    pub open spec fn replies_to<I, O, E>(self, input: &I) -> Replies<O, E> where
        P: FnOnce(&I) -> Result<O, E>,
     {
        |i: int, reply: Result<O, E>| self.provider(i).ensures((input,), reply)
    }

    /// Every provider that may come to be tried accepts `input`, and whatever it replies, the chain
    /// can deal with it. Nothing is asked of a provider, a judgement or a callback that the call
    /// cannot come to.
    pub open spec fn accepts<I, O, E>(self, input: &I) -> bool where
        P: FnOnce(&I) -> Result<O, E>,
        F: FnOnce(&E) -> bool,
        C: FnOnce(&str, &E, &str),
     {
        forall|i: int|
            0 <= i < self.len() && #[trigger] self.reachable(self.replies_to(input), i) ==> {
                &&& self.provider(i).requires((input,))
                &&& forall|reply: Result<O, E>| #[trigger]
                    self.provider(i).ensures((input,), reply) ==> self.can_settle(i, reply)
            }
    }

    /// One turn of a call: after `failures`, the next provider gave `reply` and took `duration`,
    /// and the call goes on with `progress`.
    pub open spec fn settles<O, E>(
        self,
        failures: Seq<Attempt<E>>,
        reply: Result<O, E>,
        duration: Duration,
        progress: Progress<O, E>,
    ) -> bool where F: FnOnce(&E) -> bool, C: FnOnce(&str, &E, &str) {
        let k = failures.len() as int;
        match reply {
            Ok(value) => progress matches Progress::Finished(Ok(success)) && {
                &&& success.value == value
                &&& success.provider == self.name(k)
                &&& success.attempts@ == failures
            },
            Err(error) => {
                let after = failures.push(
                    Attempt { name: self.name(k), error: Some(error), duration },
                );
                match progress {
                    Progress::Pending(turn) => {
                        &&& k + 1 < self.len()
                        &&& self.may_judge(error, true)
                        &&& self.notified(k, error)
                        &&& turn@ == after
                    },
                    Progress::Finished(Err(ChainError::Raised(raised))) => {
                        &&& raised == error
                        &&& self.may_judge(error, false)
                    },
                    Progress::Finished(Err(ChainError::AllProvidersFailed(all))) => {
                        &&& k + 1 == self.len()
                        &&& self.may_judge(error, true)
                        &&& all.attempts@ == after
                    },
                    Progress::Finished(Ok(_)) => false,
                }
            },
        }
    }

    /// What happens once a provider has given `reply`: an error is put to the predicate, if there is
    /// one, and a fallback that has a next provider is told to the callback, if there is one.
    pub open spec fn settling<O, E>(self, i: int, reply: Result<O, E>, fell_back: bool) -> Seq<
        Event<O, E>,
    > {
        match reply {
            Ok(_) => Seq::empty(),
            Err(error) => {
                let judged = if self.should_fall_back is Some {
                    seq![Event::Judged(error, fell_back)]
                } else {
                    Seq::empty()
                };
                let notified = if fell_back && self.on_fallback is Some && i + 1 < self.len() {
                    seq![Event::Notified(self.name(i)@, error, self.name(i + 1)@)]
                } else {
                    Seq::empty()
                };
                judged + notified
            },
        }
    }

    /// What happens in the turn of provider `i`: the clock is read, the provider replies, the clock
    /// is read again, and the reply is dealt with.
    pub open spec fn turn<O, E>(
        self,
        i: int,
        start: Instant,
        reply: Result<O, E>,
        duration: Duration,
        fell_back: bool,
    ) -> Seq<Event<O, E>> {
        seq![
            Event::ClockStarted(start),
            Event::Replied(reply),
            Event::ClockRead(start, duration),
        ] + self.settling(i, reply, fell_back)
    }

    /// What happens while the first providers fail one after the other and `failures` records it.
    /// `starts` are the readings of the clock that their turns begin with.
    pub open spec fn falling<O, E>(self, failures: Seq<Attempt<E>>, starts: Seq<Instant>) -> Seq<
        Event<O, E>,
    >
        decreases failures.len(),
    {
        if failures.len() == 0 {
            Seq::empty()
        } else {
            let failed = failures.last();
            self.falling(failures.drop_last(), starts.drop_last()) + self.turn(
                failures.len() - 1,
                starts.last(),
                Err(failed.error->0),
                failed.duration,
                true,
            )
        }
    }

    /// `events` is all that happened in a call that ended with `result`.
    pub open spec fn happens<O, E>(
        self,
        replies: Replies<O, E>,
        result: Result<ChainResult<O, E>, ChainError<E>>,
        events: Seq<Event<O, E>>,
    ) -> bool where F: FnOnce(&E) -> bool, C: FnOnce(&str, &E, &str) {
        exists|failures: Seq<Attempt<E>>, starts: Seq<Instant>, start: Instant, duration: Duration|
            #[trigger] self.happens_so(replies, result, events, failures, starts, start, duration)
    }

    /// The same, with the failures, the readings that their turns begin with, and the last turn.
    pub open spec fn happens_so<O, E>(
        self,
        replies: Replies<O, E>,
        result: Result<ChainResult<O, E>, ChainError<E>>,
        events: Seq<Event<O, E>>,
        failures: Seq<Attempt<E>>,
        starts: Seq<Instant>,
        start: Instant,
        duration: Duration,
    ) -> bool where F: FnOnce(&E) -> bool, C: FnOnce(&str, &E, &str) {
        let k = failures.len() as int;
        &&& starts.len() == k
        &&& self.fell_through(replies, failures)
        &&& self.may_end(replies, result)
        &&& match result {
            Ok(success) => {
                &&& success.attempts@ == failures
                &&& events == self.falling::<O, E>(failures, starts) + self.turn(
                    k,
                    start,
                    Ok(success.value),
                    duration,
                    false,
                )
            },
            Err(ChainError::Raised(error)) => {
                &&& k < self.len()
                &&& replies(k, Err(error))
                &&& self.may_judge(error, false)
                &&& events == self.falling::<O, E>(failures, starts) + self.turn(
                    k,
                    start,
                    Err(error),
                    duration,
                    false,
                )
            },
            Err(ChainError::AllProvidersFailed(all)) => {
                &&& all.attempts@ == failures
                &&& events == self.falling::<O, E>(failures, starts)
            },
        }
    }

    /// A whole call, turn by turn: in turn `i` the provider gave `given[i]`, took `durations[i]`,
    /// and the call went on with `steps[i]`. Only the last turn finishes the call.
    pub open spec fn runs<O, E>(
        self,
        given: Seq<Result<O, E>>,
        durations: Seq<Duration>,
        steps: Seq<Progress<O, E>>,
    ) -> bool where F: FnOnce(&E) -> bool, C: FnOnce(&str, &E, &str) {
        &&& 0 < steps.len() == given.len() == durations.len()
        &&& forall|i: int|
            0 <= i < steps.len() ==> self.settles(
                failures_before(steps, i),
                given[i],
                durations[i],
                #[trigger] steps[i],
            )
        &&& forall|i: int| 0 <= i < steps.len() - 1 ==> #[trigger] steps[i] is Pending
        &&& steps.last() is Finished
    }
}

/// The failures that a call has recorded before turn `i`.
pub open spec fn failures_before<O, E>(steps: Seq<Progress<O, E>>, i: int) -> Seq<Attempt<E>> {
    if i == 0 {
        Seq::empty()
    } else {
        steps[i - 1]->Pending_0@
    }
}

} // verus!
