use std::time::{Duration, Instant};
use vstd::prelude::*;

use crate::attempt::{Attempt, AllProvidersFailed, ChainError, ChainResult};
use crate::model::{ChainModel, Replies};
use crate::turn::Progress;

verus! {

/// Turn after turn a call comes to an end that the chain allows: as long as each provider's reply
/// is one that it may give, a turn that leaves the call pending has recorded one more failure in
/// order and left a provider to try, and a turn that finishes the call gives a permitted result.
/// It does not matter how the replies were obtained, so a chain that waits for them behaves as one
/// that calls its providers.
pub proof fn turns_lead_to_a_permitted_end<P, F, C, O, E>(
    model: ChainModel<P, F, C>,
    replies: Replies<O, E>,
    failures: Seq<Attempt<E>>,
    reply: Result<O, E>,
    duration: Duration,
    progress: Progress<O, E>,
) where F: FnOnce(&E) -> bool, C: FnOnce(&str, &E, &str)
    requires
        failures.len() < model.len(),
        model.fell_through(replies, failures),
        replies(failures.len() as int, reply),
        model.settles(failures, reply, duration, progress),
    ensures
        match progress {
            Progress::Pending(turn) => {
                &&& turn@.len() == failures.len() + 1
                &&& turn@.len() < model.len()
                &&& model.fell_through(replies, turn@)
            },
            Progress::Finished(result) => model.may_end(replies, result),
        },
{
}

/// A call that is driven turn by turn, from its first turn until it is finished, ends as a call of
/// the chain may end, after at most one turn for each provider.
pub proof fn a_driven_call_ends_as_a_call_may<P, F, C, O, E>(
    model: ChainModel<P, F, C>,
    replies: Replies<O, E>,
    given: Seq<Result<O, E>>,
    durations: Seq<Duration>,
    steps: Seq<Progress<O, E>>,
) where F: FnOnce(&E) -> bool, C: FnOnce(&str, &E, &str)
    requires
        0 < model.len(),
        model.runs(given, durations, steps),
        forall|i: int| 0 <= i < given.len() ==> replies(i, #[trigger] given[i]),
    ensures
        steps.last() matches Progress::Finished(result) && model.may_end(replies, result),
        steps.len() <= model.len(),
{
    let last = steps.len() - 1;
    turns_record_failures_in_order(model, replies, given, durations, steps, last);
    turns_lead_to_a_permitted_end(
        model,
        replies,
        crate::model::failures_before(steps, last),
        given[last],
        durations[last],
        steps[last],
    );
}

proof fn turns_record_failures_in_order<P, F, C, O, E>(
    model: ChainModel<P, F, C>,
    replies: Replies<O, E>,
    given: Seq<Result<O, E>>,
    durations: Seq<Duration>,
    steps: Seq<Progress<O, E>>,
    i: int,
) where F: FnOnce(&E) -> bool, C: FnOnce(&str, &E, &str)
    requires
        0 < model.len(),
        model.runs(given, durations, steps),
        forall|j: int| 0 <= j < given.len() ==> replies(j, #[trigger] given[j]),
        0 <= i < steps.len(),
    ensures
        crate::model::failures_before(steps, i).len() == i,
        i < model.len(),
        model.fell_through(replies, crate::model::failures_before(steps, i)),
    decreases i,
{
    if i > 0 {
        turns_record_failures_in_order(model, replies, given, durations, steps, i - 1);
        turns_lead_to_a_permitted_end(
            model,
            replies,
            crate::model::failures_before(steps, i - 1),
            given[i - 1],
            durations[i - 1],
            steps[i - 1],
        );
    }
}

/// The first reply that is not a failure to fall back from decides a call. Here every provider has
/// one reply, `reply(i)`, and every error one judgement, `falls_back(error)`; the first `k`
/// providers fail so that the chain falls back, and provider `k`, if there is one, does not.
pub proof fn the_first_stop_decides<P, F, C, O, E>(
    model: ChainModel<P, F, C>,
    replies: Replies<O, E>,
    result: Result<ChainResult<O, E>, ChainError<E>>,
    reply: spec_fn(int) -> Result<O, E>,
    falls_back: spec_fn(E) -> bool,
    k: int,
) where F: FnOnce(&E) -> bool, C: FnOnce(&str, &E, &str)
    requires
        model.may_end(replies, result),
        forall|i: int, r: Result<O, E>|
            0 <= i < model.len() && #[trigger] replies(i, r) ==> r == reply(i),
        forall|error: E, verdict: bool| #[trigger]
            model.may_judge(error, verdict) ==> verdict == falls_back(error),
        0 <= k <= model.len(),
        forall|i: int|
            0 <= i < k ==> (#[trigger] reply(i) matches Err(error) && falls_back(error)),
        k < model.len() ==> !(reply(k) matches Err(error) && falls_back(error)),
    ensures
        match result {
            Ok(success) => {
                &&& k < model.len()
                &&& reply(k) == Ok::<O, E>(success.value)
                &&& success.provider == model.name(k)
                &&& records(success.attempts@, reply, k)
            },
            Err(ChainError::Raised(error)) => {
                &&& k < model.len()
                &&& reply(k) == Err::<O, E>(error)
            },
            Err(ChainError::AllProvidersFailed(all)) => {
                &&& k == model.len()
                &&& records(all.attempts@, reply, k)
            },
        },
{
    let failures = match result {
        Ok(success) => success.attempts@,
        Err(ChainError::Raised(error)) => choose|failures: Seq<Attempt<E>>|
            {
                &&& failures.len() < model.len()
                &&& #[trigger] model.fell_through(replies, failures)
                &&& replies(failures.len() as int, Err(error))
                &&& model.may_judge(error, false)
            },
        Err(ChainError::AllProvidersFailed(all)) => all.attempts@,
    };
    if failures.len() > k {
        assert(model.fell_back(replies, k, failures[k]));
    } else if failures.len() < k {
        assert(reply(failures.len() as int) is Err);
    }
    assert forall|i: int| 0 <= i < failures.len() implies reply(i) == Err::<O, E>(
        (#[trigger] failures[i]).error->0,
    ) && failures[i].error is Some by {
        assert(model.fell_back(replies, i, failures[i]));
    }
}

/// `attempts` records the errors of the first `k` replies.
pub open spec fn records<O, E>(
    attempts: Seq<Attempt<E>>,
    reply: spec_fn(int) -> Result<O, E>,
    k: int,
) -> bool {
    &&& attempts.len() == k
    &&& forall|i: int|
        0 <= i < k ==> {
            &&& (#[trigger] attempts[i]).error is Some
            &&& reply(i) == Err::<O, E>(attempts[i].error->0)
        }
}

/// The attempts of a result list the first providers of the chain by name, in order, each with the
/// error it gave; a success comes from the provider right after them, and the failure of all lists
/// every provider.
pub proof fn attempts_follow_the_chain<P, F, C, O, E>(
    model: ChainModel<P, F, C>,
    replies: Replies<O, E>,
    result: Result<ChainResult<O, E>, ChainError<E>>,
) where F: FnOnce(&E) -> bool, C: FnOnce(&str, &E, &str)
    requires
        model.may_end(replies, result),
    ensures
        match result {
            Ok(success) => {
                let k = success.attempts@.len() as int;
                &&& crate::attempt::attempt_names(success.attempts@) == model.names().take(k)
                &&& success.provider@ == model.names()[k]
                &&& forall|i: int| 0 <= i < k ==> (#[trigger] success.attempts@[i]).error is Some
            },
            Err(ChainError::Raised(_)) => true,
            Err(ChainError::AllProvidersFailed(all)) => {
                &&& crate::attempt::attempt_names(all.attempts@) == model.names()
                &&& forall|i: int|
                    0 <= i < model.len() ==> (#[trigger] all.attempts@[i]).error is Some
            },
        },
{
    match result {
        Ok(success) => {
            assert forall|i: int| 0 <= i < success.attempts@.len() implies (
            #[trigger] success.attempts@[i]).name == model.name(i) by {
                assert(model.fell_back(replies, i, success.attempts@[i]));
            }
            assert(crate::attempt::attempt_names(success.attempts@) =~= model.names().take(
                success.attempts@.len() as int,
            ));
        },
        Err(ChainError::Raised(_)) => {},
        Err(ChainError::AllProvidersFailed(all)) => {
            assert forall|i: int| 0 <= i < all.attempts@.len() implies (
            #[trigger] all.attempts@[i]).name == model.name(i) by {
                assert(model.fell_back(replies, i, all.attempts@[i]));
            }
            assert(crate::attempt::attempt_names(all.attempts@) =~= model.names());
        },
    }
}

/// A call succeeds if some provider never fails and every error before it causes fallback: that
/// provider wins, or one before it does.
pub proof fn a_provider_that_never_fails_makes_the_call_succeed<P, F, C, O, E>(
    model: ChainModel<P, F, C>,
    replies: Replies<O, E>,
    result: Result<ChainResult<O, E>, ChainError<E>>,
    k: int,
) where F: FnOnce(&E) -> bool, C: FnOnce(&str, &E, &str)
    requires
        model.may_end(replies, result),
        0 <= k < model.len(),
        forall|reply: Result<O, E>| #[trigger] replies(k, reply) ==> reply is Ok,
        forall|i: int, error: E, falls_back: bool|
            0 <= i < k && #[trigger] replies(i, Err(error)) && #[trigger] model.may_judge(
                error,
                falls_back,
            ) ==> falls_back,
    ensures
        result matches Ok(success) && success.attempts@.len() <= k,
{
    let failures = match result {
        Ok(success) => success.attempts@,
        Err(ChainError::Raised(error)) => choose|failures: Seq<Attempt<E>>|
            {
                &&& failures.len() < model.len()
                &&& #[trigger] model.fell_through(replies, failures)
                &&& replies(failures.len() as int, Err(error))
                &&& model.may_judge(error, false)
            },
        Err(ChainError::AllProvidersFailed(all)) => all.attempts@,
    };
    if failures.len() > k {
        assert(model.fell_back(replies, k, failures[k]));
    }
}

/// When the first provider does not fail, no attempt is recorded: the call gives what it returned.
pub proof fn the_first_provider_wins_outright<P, F, C, O, E>(
    model: ChainModel<P, F, C>,
    replies: Replies<O, E>,
    result: Result<ChainResult<O, E>, ChainError<E>>,
) where F: FnOnce(&E) -> bool, C: FnOnce(&str, &E, &str)
    requires
        model.may_end(replies, result),
        0 < model.len(),
        forall|reply: Result<O, E>| #[trigger] replies(0, reply) ==> reply is Ok,
    ensures
        result matches Ok(success) && {
            &&& success.attempts@.len() == 0
            &&& success.provider == model.name(0)
            &&& replies(0, Ok(success.value))
        },
{
    a_provider_that_never_fails_makes_the_call_succeed(model, replies, result, 0);
}

/// If every provider fails and every error causes fallback, the call fails with all of them.
pub proof fn failures_alone_fail_the_call<P, F, C, O, E>(
    model: ChainModel<P, F, C>,
    replies: Replies<O, E>,
    result: Result<ChainResult<O, E>, ChainError<E>>,
) where F: FnOnce(&E) -> bool, C: FnOnce(&str, &E, &str)
    requires
        model.may_end(replies, result),
        forall|i: int, reply: Result<O, E>|
            0 <= i < model.len() && #[trigger] replies(i, reply) ==> reply is Err,
        forall|i: int, error: E, falls_back: bool|
            0 <= i < model.len() && #[trigger] replies(i, Err(error)) && #[trigger] model.may_judge(
                error,
                falls_back,
            ) ==> falls_back,
    ensures
        result matches Err(ChainError::AllProvidersFailed(all)) && all.attempts@.len()
            == model.len(),
{
}

/// A chain without a predicate falls back on any error: it never raises a provider's own error.
pub proof fn a_chain_without_predicate_never_raises<P, F, C, O, E>(
    model: ChainModel<P, F, C>,
    replies: Replies<O, E>,
    result: Result<ChainResult<O, E>, ChainError<E>>,
) where F: FnOnce(&E) -> bool, C: FnOnce(&str, &E, &str)
    requires
        model.may_end(replies, result),
        model.should_fall_back is None,
    ensures
        !(result matches Err(ChainError::Raised(_))),
{
}

/// The callback is called for each failure that has a next provider, with the name of the failed
/// provider, its error and the name of the next one.
pub proof fn each_fallback_is_notified<P, F, C, O, E>(
    model: ChainModel<P, F, C>,
    replies: Replies<O, E>,
    failures: Seq<Attempt<E>>,
    callback: C,
    i: int,
) where F: FnOnce(&E) -> bool, C: Fn(&str, &E, &str)
    requires
        model.fell_through(replies, failures),
        model.on_fallback == Some(callback),
        0 <= i < failures.len(),
        i + 1 < model.len(),
    ensures
        failures[i].error matches Some(error) && exists|failed: &str, next: &str|
            failed@ == model.names()[i] && next@ == model.names()[i + 1]
                && #[trigger] callback.ensures((failed, &error, next), ()),
{
    assert(model.fell_back(replies, i, failures[i]));
}

/// A provider comes to be tried only after each one before it failed, the chain fell back, and the
/// callback was called for that. A call relies on no other provider than such a reachable one.
pub proof fn the_callback_comes_before_the_next_provider<P, F, C, O, E>(
    model: ChainModel<P, F, C>,
    replies: Replies<O, E>,
    i: int,
    j: int,
) where F: FnOnce(&E) -> bool, C: FnOnce(&str, &E, &str)
    requires
        model.reachable(replies, i),
        0 <= j < i,
    ensures
        exists|error: E|
            {
                &&& #[trigger] replies(j, Err(error))
                &&& model.may_judge(error, true)
                &&& model.notified(j, error)
            },
{
    let failures = choose|failures: Seq<Attempt<E>>|
        failures.len() == i && #[trigger] model.fell_through(replies, failures);
    assert(model.fell_back(replies, j, failures[j]));
    assert(replies(j, Err(failures[j].error->0)));
}

/// The callback is not called after the last provider, as there is no next: nothing is asked of it
/// there, so it may be one that cannot be called.
pub proof fn the_callback_is_not_called_after_the_last_provider<P, F, C, E>(
    model: ChainModel<P, F, C>,
    error: E,
) where C: FnOnce(&str, &E, &str)
    ensures
        model.can_notify(model.len() - 1, error),
{
}

/// What is left of `items` are those that `skip` does not mark, in their order: `origin` holds
/// their places in `items`.
pub proof fn skipping_keeps_the_rest_in_order<T>(items: Seq<T>, skip: Seq<bool>) -> (origin: Seq<
    int,
>)
    requires
        skip.len() == items.len(),
    ensures
        origin.len() == crate::model::kept(items, skip).len(),
        forall|j: int|
            0 <= j < origin.len() ==> {
                &&& 0 <= #[trigger] origin[j] < items.len()
                &&& !skip[origin[j]]
                &&& crate::model::kept(items, skip)[j] == items[origin[j]]
            },
        forall|j: int, l: int| 0 <= j < l < origin.len() ==> origin[j] < origin[l],
        forall|i: int| 0 <= i < items.len() && !#[trigger] skip[i] ==> origin.contains(i),
    decreases items.len(),
{
    if items.len() == 0 {
        Seq::empty()
    } else {
        let last = items.len() - 1;
        let before = skipping_keeps_the_rest_in_order(items.drop_last(), skip.drop_last());
        assert forall|i: int| 0 <= i < last && !#[trigger] skip[i] implies before.contains(i) by {
            assert(!skip.drop_last()[i]);
        }
        if skip.last() {
            before
        } else {
            let origin = before.push(last);
            assert forall|i: int| 0 <= i < items.len() && !#[trigger] skip[i] implies origin.contains(
                i,
            ) by {
                if i == last {
                    assert(origin[before.len() as int] == last);
                } else {
                    let j = choose|j: int| 0 <= j < before.len() && before[j] == i;
                    assert(origin[j] == i);
                }
            }
            origin
        }
    }
}

/// Nothing is left exactly when everything is skipped.
pub proof fn nothing_is_left_only_if_all_is_skipped<T>(items: Seq<T>, skip: Seq<bool>)
    requires
        skip.len() == items.len(),
    ensures
        crate::model::kept(items, skip).len() == 0 <==> forall|i: int|
            0 <= i < items.len() ==> #[trigger] skip[i],
{
    let origin = skipping_keeps_the_rest_in_order(items, skip);
    if origin.len() > 0 {
        assert(!skip[origin[0]]);
    }
}

/// Where the predicate answers by the name alone, skipping filters the providers by it.
pub proof fn skipping_filters_by_name<P, F, C, Q>(
    model: ChainModel<P, F, C>,
    predicate: Q,
    skip: Seq<bool>,
    skips: spec_fn(Seq<char>) -> bool,
) where Q: Fn(&str) -> bool
    requires
        model.answers(predicate, skip),
        forall|text: &str, answer: bool| #[trigger]
            predicate.ensures((text,), answer) ==> answer == skips(text@),
    ensures
        model.without(skip).providers == model.providers.filter(
            |pair: (String, P)| !skips(pair.0@),
        ),
{
    assert forall|i: int| 0 <= i < model.len() implies #[trigger] skip[i] == skips(
        model.providers[i].0@,
    ) by {
        assert(crate::model::may_answer(predicate, model.name(i)@, skip[i]));
    }
    kept_is_filter(model.providers, skip, |pair: (String, P)| !skips(pair.0@));
}

proof fn kept_is_filter<T>(items: Seq<T>, skip: Seq<bool>, keep: spec_fn(T) -> bool)
    requires
        skip.len() == items.len(),
        forall|i: int| 0 <= i < items.len() ==> #[trigger] skip[i] == !keep(items[i]),
    ensures
        crate::model::kept(items, skip) == items.filter(keep),
    decreases items.len(),
{
    reveal(Seq::filter);
    if items.len() > 0 {
        assert forall|i: int| 0 <= i < items.len() - 1 implies #[trigger] skip.drop_last()[i]
            == !keep(items.drop_last()[i]) by {
            assert(skip[i] == !keep(items[i]));
        }
        kept_is_filter(items.drop_last(), skip.drop_last(), keep);
        assert(skip[items.len() - 1] == !keep(items[items.len() - 1]));
    }
}

/// The message of the failure of all providers names each of them.
pub proof fn the_message_names_every_provider<E>(all: AllProvidersFailed<E>, i: int)
    requires
        0 <= i < all.attempts@.len(),
    ensures
        crate::text::occurs_in(all.attempts@[i].name@, all.message_text()),
{
    let names = crate::attempt::attempt_names(all.attempts@);
    let list = crate::text::joined(names, ", "@);
    let prefix = "all providers failed: "@;
    crate::text::joined_contains_every_piece(names, ", "@, i);
    let start = choose|start: int|
        0 <= start <= list.len() - names[i].len() && #[trigger] list.subrange(
            start,
            start + names[i].len(),
        ) == names[i];
    let at = prefix.len() + start;
    assert(all.message_text().subrange(at, at + names[i].len()) =~= names[i]);
}

/// A name given as a `String` is kept as it is.
pub proof fn a_string_name_is_kept(given: String, name: String)
    requires
        call_ensures(<String as Into<String>>::into, (given,), name),
    ensures
        name == given,
{
}

/// A name given as a string slice is kept character by character.
pub proof fn a_slice_name_is_kept(given: &str, name: String)
    requires
        call_ensures(<&str as Into<String>>::into, (given,), name),
    ensures
        name@ == given@,
{
}

/// A chain that holds the predicate `f` falls back from an error only if `f` may say so of it, and
/// raises an error only if `f` may say that it does not call for fallback. This holds whatever the
/// length of the chain.
pub proof fn the_predicate_is_followed<P, F, C, O, E>(
    model: ChainModel<P, F, C>,
    replies: Replies<O, E>,
    result: Result<ChainResult<O, E>, ChainError<E>>,
    f: F,
) where F: Fn(&E) -> bool, C: FnOnce(&str, &E, &str)
    requires
        model.may_end(replies, result),
        model.should_fall_back == Some(f),
    ensures
        match result {
            Ok(success) => forall|i: int|
                0 <= i < success.attempts@.len() ==> f.ensures(
                    (&(#[trigger] success.attempts@[i]).error->0,),
                    true,
                ),
            Err(ChainError::Raised(error)) => f.ensures((&error,), false),
            Err(ChainError::AllProvidersFailed(all)) => forall|i: int|
                0 <= i < all.attempts@.len() ==> f.ensures(
                    (&(#[trigger] all.attempts@[i]).error->0,),
                    true,
                ),
        },
{
    match result {
        Ok(success) => {
            assert forall|i: int| 0 <= i < success.attempts@.len() implies f.ensures(
                (&(#[trigger] success.attempts@[i]).error->0,),
                true,
            ) by {
                assert(model.fell_back(replies, i, success.attempts@[i]));
            }
        },
        Err(ChainError::Raised(_)) => {},
        Err(ChainError::AllProvidersFailed(all)) => {
            assert forall|i: int| 0 <= i < all.attempts@.len() implies f.ensures(
                (&(#[trigger] all.attempts@[i]).error->0,),
                true,
            ) by {
                assert(model.fell_back(replies, i, all.attempts@[i]));
            }
        },
    }
}

/// No provider is tried after one whose every error the predicate `f` rejects: the call ends with a
/// success of that provider or one before it, or raises an error.
pub proof fn a_rejected_error_stops_the_call<P, F, C, O, E>(
    model: ChainModel<P, F, C>,
    replies: Replies<O, E>,
    result: Result<ChainResult<O, E>, ChainError<E>>,
    f: F,
    k: int,
) where F: Fn(&E) -> bool, C: FnOnce(&str, &E, &str)
    requires
        model.may_end(replies, result),
        model.should_fall_back == Some(f),
        0 <= k < model.providers.len(),
        forall|error: E, answer: bool|
            replies(k, Err(error)) && #[trigger] f.ensures((&error,), answer) ==> !answer,
    ensures
        match result {
            Ok(success) => success.attempts@.len() <= k,
            Err(ChainError::Raised(error)) => exists|i: int|
                0 <= i <= k && #[trigger] replies(i, Err(error)),
            Err(ChainError::AllProvidersFailed(_)) => false,
        },
{
    let failures = match result {
        Ok(success) => success.attempts@,
        Err(ChainError::Raised(error)) => choose|failures: Seq<Attempt<E>>|
            {
                &&& failures.len() < model.len()
                &&& #[trigger] model.fell_through(replies, failures)
                &&& replies(failures.len() as int, Err(error))
                &&& model.may_judge(error, false)
            },
        Err(ChainError::AllProvidersFailed(all)) => all.attempts@,
    };
    if failures.len() > k {
        assert(model.fell_back(replies, k, failures[k]));
        let error = failures[k].error->0;
        assert(f.ensures((&error,), true));
    }
}

/// If the first provider fails and the predicate `f` only ever rejects its error, the call raises an
/// error that the first provider may give.
pub proof fn a_rejected_first_error_is_raised<P, F, C, O, E>(
    model: ChainModel<P, F, C>,
    replies: Replies<O, E>,
    result: Result<ChainResult<O, E>, ChainError<E>>,
    f: F,
) where F: Fn(&E) -> bool, C: FnOnce(&str, &E, &str)
    requires
        model.may_end(replies, result),
        model.should_fall_back == Some(f),
        0 < model.providers.len(),
        forall|reply: Result<O, E>| #[trigger] replies(0, reply) ==> reply is Err,
        forall|error: E, answer: bool|
            replies(0, Err(error)) && #[trigger] f.ensures((&error,), answer) ==> !answer,
    ensures
        result matches Err(ChainError::Raised(error)) && replies(0, Err(error)) && f.ensures(
            (&error,),
            false,
        ),
{
    a_rejected_error_stops_the_call(model, replies, result, f, 0);
}

/// A predicate `f` that only ever accepts lets no error be raised.
pub proof fn a_predicate_that_accepts_all_raises_nothing<P, F, C, O, E>(
    model: ChainModel<P, F, C>,
    replies: Replies<O, E>,
    result: Result<ChainResult<O, E>, ChainError<E>>,
    f: F,
) where F: Fn(&E) -> bool, C: FnOnce(&str, &E, &str)
    requires
        model.may_end(replies, result),
        model.should_fall_back == Some(f),
        forall|error: E, answer: bool| #[trigger] f.ensures((&error,), answer) ==> answer,
    ensures
        !(result matches Err(ChainError::Raised(_))),
{
}

/// Skipping providers keeps the settings of a chain: its predicate and its callback.
pub proof fn skipping_keeps_the_settings<P, F, C>(model: ChainModel<P, F, C>, skip: Seq<bool>)
    ensures
        model.without(skip).should_fall_back == model.should_fall_back,
        model.without(skip).on_fallback == model.on_fallback,
{
}

/// Skipping providers leaves those that are not skipped, each under its name, in their order:
/// `origin` holds their places in the chain. It is refused exactly if all are skipped.
pub proof fn skipping_leaves_the_other_providers<P, F, C>(
    model: ChainModel<P, F, C>,
    skip: Seq<bool>,
) -> (origin: Seq<int>)
    requires
        skip.len() == model.providers.len(),
    ensures
        origin.len() == model.without(skip).providers.len(),
        forall|j: int|
            0 <= j < origin.len() ==> {
                &&& 0 <= #[trigger] origin[j] < model.providers.len()
                &&& !skip[origin[j]]
                &&& model.without(skip).providers[j] == model.providers[origin[j]]
            },
        forall|j: int, l: int| 0 <= j < l < origin.len() ==> origin[j] < origin[l],
        forall|i: int| 0 <= i < skip.len() && !#[trigger] skip[i] ==> origin.contains(i),
        model.without(skip).len() == 0 <==> forall|i: int|
            0 <= i < skip.len() ==> #[trigger] skip[i],
{
    nothing_is_left_only_if_all_is_skipped(model.providers, skip);
    skipping_keeps_the_rest_in_order(model.providers, skip)
}

/// The answers by which providers are skipped are ones that the predicate may give to their names,
/// one for each.
pub proof fn providers_are_skipped_by_answers_to_their_names<P, F, C, Q>(
    model: ChainModel<P, F, C>,
    predicate: Q,
    skip: Seq<bool>,
    i: int,
) where Q: Fn(&str) -> bool
    requires
        model.answers(predicate, skip),
        0 <= i < model.providers.len(),
    ensures
        skip.len() == model.providers.len(),
        exists|text: &str|
            text@ == model.providers[i].0@ && #[trigger] predicate.ensures((text,), skip[i]),
{
    assert(crate::model::may_answer(predicate, model.name(i)@, skip[i]));
}

/// A chain holds each provider that it was given, in its place and under what its name converts to,
/// and no other.
pub proof fn a_chain_holds_what_it_was_given<P, F, C, S>(
    model: ChainModel<P, F, C>,
    given: Seq<(S, P)>,
) where S: Into<String>
    requires
        model.lists(given),
    ensures
        model.providers.len() == given.len(),
        forall|i: int|
            0 <= i < given.len() ==> {
                &&& (#[trigger] model.providers[i]).1 == given[i].1
                &&& call_ensures(<S as Into<String>>::into, (given[i].0,), model.providers[i].0)
            },
{
    assert forall|i: int| 0 <= i < given.len() implies {
        &&& (#[trigger] model.providers[i]).1 == given[i].1
        &&& call_ensures(<S as Into<String>>::into, (given[i].0,), model.providers[i].0)
    } by {
        assert(model.provider(i) == model.providers[i].1);
        assert(model.name(i) == model.providers[i].0);
    }
}

/// Length, names and providers of a chain are those of its pairs.
pub proof fn a_chain_is_its_pairs<P, F, C>(model: ChainModel<P, F, C>)
    ensures
        model.len() == model.providers.len(),
        model.names().len() == model.providers.len(),
        forall|i: int|
            0 <= i < model.providers.len() ==> {
                &&& #[trigger] model.name(i) == model.providers[i].0
                &&& model.provider(i) == model.providers[i].1
                &&& model.names()[i] == model.providers[i].0@
            },
{
}

/// Where the providers are functions of the input, what they may reply is what these functions may
/// return.
pub proof fn replies_are_what_providers_return<I, P, F, C, O, E>(
    model: ChainModel<P, F, C>,
    input: &I,
    i: int,
    reply: Result<O, E>,
) where P: Fn(&I) -> Result<O, E>
    requires
        0 <= i < model.providers.len(),
    ensures
        model.replies_to(input)(i, reply) <==> model.providers[i].1.ensures((input,), reply),
{
}

/// A chain whose providers, predicate and callback can be called with anything accepts every input.
pub proof fn functions_that_take_anything_are_accepted<I, P, F, C, O, E>(
    model: ChainModel<P, F, C>,
    input: &I,
) where P: Fn(&I) -> Result<O, E>, F: Fn(&E) -> bool, C: Fn(&str, &E, &str)
    requires
        forall|i: int|
            0 <= i < model.providers.len() ==> (#[trigger] model.providers[i]).1.requires((input,)),
        model.should_fall_back matches Some(f) ==> forall|error: E| #[trigger]
            f.requires((&error,)),
        model.on_fallback matches Some(callback) ==> forall|failed: &str, error: E, next: &str|
            #[trigger] callback.requires((failed, &error, next)),
    ensures
        model.accepts(input),
{
    assert forall|i: int| 0 <= i < model.len() && #[trigger] model.reachable(
        model.replies_to(input),
        i,
    ) implies model.provider(i).requires((input,)) by {
        assert(model.providers[i].1.requires((input,)));
    }
}

/// A predicate on names that can be called with anything may be used to skip providers.
pub proof fn a_filter_that_takes_anything_may_be_asked<P, F, C, Q>(
    model: ChainModel<P, F, C>,
    predicate: Q,
) where Q: Fn(&str) -> bool
    requires
        forall|text: &str| #[trigger] predicate.requires((text,)),
    ensures
        model.may_ask(predicate),
{
}

/// One turn of a call, said of its inputs and its result: a success ends the call with the value and
/// the name of the provider whose turn it is and leaves the failures as they are; an error that the
/// predicate rejects is raised as it is; any other is added to the failures, with the duration, and
/// the call goes on exactly if there is a next provider.
pub proof fn a_turn_goes_by_its_reply<P, F, C, O, E>(
    model: ChainModel<P, F, C>,
    failures: Seq<Attempt<E>>,
    reply: Result<O, E>,
    duration: Duration,
    progress: Progress<O, E>,
) where F: Fn(&E) -> bool, C: Fn(&str, &E, &str)
    requires
        model.settles(failures, reply, duration, progress),
        failures.len() < model.providers.len(),
    ensures
        match progress {
            Progress::Finished(Ok(success)) => {
                &&& reply == Ok::<O, E>(success.value)
                &&& success.provider == model.providers[failures.len() as int].0
                &&& success.attempts@ == failures
            },
            Progress::Finished(Err(ChainError::Raised(error))) => {
                &&& reply == Err::<O, E>(error)
                &&& model.should_fall_back matches Some(f) && f.ensures((&error,), false)
            },
            Progress::Finished(Err(ChainError::AllProvidersFailed(all))) => {
                &&& reply is Err
                &&& failures.len() + 1 == model.providers.len()
                &&& all.attempts@ == failures.push(
                    Attempt {
                        name: model.providers[failures.len() as int].0,
                        error: Some(reply->Err_0),
                        duration,
                    },
                )
                &&& model.should_fall_back matches Some(f) ==> f.ensures((&reply->Err_0,), true)
            },
            Progress::Pending(turn) => {
                &&& reply is Err
                &&& failures.len() + 1 < model.providers.len()
                &&& turn@ == failures.push(
                    Attempt {
                        name: model.providers[failures.len() as int].0,
                        error: Some(reply->Err_0),
                        duration,
                    },
                )
                &&& model.should_fall_back matches Some(f) ==> f.ensures((&reply->Err_0,), true)
                &&& model.on_fallback matches Some(callback) ==> exists|failed: &str, next: &str|
                    failed@ == model.providers[failures.len() as int].0@ && next@
                        == model.providers[failures.len() as int + 1].0@ && #[trigger] callback.ensures(
                        (failed, &reply->Err_0, next),
                        (),
                    )
            },
        },
{
}

/// Every duration of attempts that were timed is what the clock gave for the time since some reading
/// of it.
pub proof fn durations_are_read_off_the_clock<E>(attempts: Seq<Attempt<E>>, i: int)
    requires
        crate::model::all_clocked(attempts),
        0 <= i < attempts.len(),
    ensures
        exists|start: Instant|
            call_ensures(Instant::now, (), start) && #[trigger] call_ensures(
                Instant::elapsed,
                (&start,),
                attempts[i].duration,
            ),
{
    assert(crate::model::clocked(attempts[i].duration));
}

/// A chain whose predicate and callback can be called with anything can deal with every reply.
pub proof fn functions_that_take_anything_settle_every_reply<P, F, C, O, E>(
    model: ChainModel<P, F, C>,
    i: int,
    reply: Result<O, E>,
) where F: Fn(&E) -> bool, C: Fn(&str, &E, &str)
    requires
        model.should_fall_back matches Some(f) ==> forall|error: E| #[trigger]
            f.requires((&error,)),
        model.on_fallback matches Some(callback) ==> forall|failed: &str, error: E, next: &str|
            #[trigger] callback.requires((failed, &error, next)),
    ensures
        model.can_settle(i, reply),
{
}

/// The message of no attempts is the bare announcement; one more attempt adds its name, after a
/// comma and a blank where there are others.
pub proof fn the_message_lists_the_names<E>(
    none: AllProvidersFailed<E>,
    fewer: AllProvidersFailed<E>,
    more: AllProvidersFailed<E>,
    attempt: Attempt<E>,
)
    requires
        none.attempts@.len() == 0,
        more.attempts@ == fewer.attempts@.push(attempt),
    ensures
        none.message_text() == "all providers failed: "@,
        fewer.attempts@.len() == 0 ==> more.message_text() == fewer.message_text() + attempt.name@,
        fewer.attempts@.len() > 0 ==> more.message_text() == fewer.message_text() + ", "@
            + attempt.name@,
{
    let names = crate::attempt::attempt_names(more.attempts@);
    assert(none.message_text() =~= "all providers failed: "@);
    assert(names.drop_last() =~= crate::attempt::attempt_names(fewer.attempts@));
    assert(names.last() == attempt.name@);
    if fewer.attempts@.len() == 0 {
        assert(more.message_text() =~= fewer.message_text() + attempt.name@);
    } else {
        assert(more.message_text() =~= fewer.message_text() + ", "@ + attempt.name@);
    }
}

} // verus!
