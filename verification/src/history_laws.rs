use std::time::{Duration, Instant};
use vstd::prelude::*;

use crate::attempt::{Attempt, ChainError, ChainResult};
use crate::model::{ChainModel, Replies};
use crate::trace::Event;

verus! {

/// In a call each provider is called at most once, in the order of the chain and without a gap, and
/// the replies to those calls are what the call goes by: the errors of the attempts, then the value
/// or the error that it ends with.
pub proof fn each_provider_is_called_once<P, F, C, O, E>(
    model: ChainModel<P, F, C>,
    replies: Replies<O, E>,
    result: Result<ChainResult<O, E>, ChainError<E>>,
    events: Seq<Event<O, E>>,
) where F: FnOnce(&E) -> bool, C: FnOnce(&str, &E, &str)
    requires
        model.happens(replies, result, events),
    ensures
        ({
            let given = events.filter(|e: Event<O, E>| e is Replied);
            &&& given.len() <= model.providers.len()
            &&& forall|i: int|
                0 <= i < given.len() ==> (#[trigger] given[i] matches Event::Replied(reply)
                    && replies(i, reply))
            &&& match result {
                Ok(success) => given == Seq::new(
                    success.attempts@.len(),
                    |i: int| Event::Replied(Err::<O, E>(success.attempts@[i].error->0)),
                ).push(Event::Replied(Ok(success.value))),
                Err(ChainError::Raised(error)) => {
                    &&& given.len() > 0
                    &&& given.last() == Event::Replied(Err::<O, E>(error))
                    &&& forall|i: int|
                        0 <= i < given.len() ==> (#[trigger] given[i])->Replied_0 is Err
                },
                Err(ChainError::AllProvidersFailed(all)) => {
                    &&& given.len() == model.providers.len()
                    &&& given == Seq::new(
                        all.attempts@.len(),
                        |i: int| Event::Replied(Err::<O, E>(all.attempts@[i].error->0)),
                    )
                },
            }
        }),
{
    let (failures, starts, start, duration) = choose|
        failures: Seq<Attempt<E>>,
        starts: Seq<Instant>,
        start: Instant,
        duration: Duration,
    | #[trigger]
        model.happens_so(replies, result, events, failures, starts, start, duration);
    let is_reply = |e: Event<O, E>| e is Replied;
    let k = failures.len() as int;
    falling_replies::<P, F, C, O, E>(model, failures, starts);
    let falling = model.falling::<O, E>(failures, starts);
    let failed = Seq::new(
        failures.len(),
        |i: int| Event::Replied(Err::<O, E>(failures[i].error->0)),
    );
    assert forall|i: int| 0 <= i < k implies replies(i, Err((#[trigger] failures[i]).error->0)) by {
        assert(model.fell_back(replies, i, failures[i]));
    }
    match result {
        Ok(success) => {
            let last = model.turn(k, start, Ok(success.value), duration, false);
            last_turn_filtered(model, k, start, Ok(success.value), duration, is_reply);
            Seq::filter_distributes_over_add(falling, last, is_reply);
            assert(events.filter(is_reply) =~= failed.push(Event::Replied(Ok(success.value))));
        },
        Err(ChainError::Raised(error)) => {
            let last = model.turn(k, start, Err(error), duration, false);
            last_turn_filtered(model, k, start, Err(error), duration, is_reply);
            Seq::filter_distributes_over_add(falling, last, is_reply);
            assert(events.filter(is_reply) =~= failed.push(Event::Replied(Err(error))));
        },
        Err(ChainError::AllProvidersFailed(all)) => {},
    }
}

/// A chain with a callback calls it exactly once between each two neighbouring replies, with the
/// name of the provider that failed, its error and the name of the next one, and not otherwise.
#[verifier::rlimit(40)]
#[verifier::spinoff_prover]
pub proof fn each_fallback_is_notified_once<P, F, C, O, E>(
    model: ChainModel<P, F, C>,
    replies: Replies<O, E>,
    result: Result<ChainResult<O, E>, ChainError<E>>,
    events: Seq<Event<O, E>>,
) where F: FnOnce(&E) -> bool, C: FnOnce(&str, &E, &str)
    requires
        model.happens(replies, result, events),
        model.on_fallback is Some,
        0 < model.providers.len(),
    ensures
        ({
            let given = events.filter(|e: Event<O, E>| e is Replied);
            let told = events.filter(|e: Event<O, E>| e is Notified);
            let both = events.filter(|e: Event<O, E>| e is Replied || e is Notified);
            &&& given.len() > 0
            &&& told == Seq::new(
                (given.len() - 1) as nat,
                |i: int|
                    Event::<O, E>::Notified(
                        model.providers[i].0@,
                        given[i]->Replied_0->Err_0,
                        model.providers[i + 1].0@,
                    ),
            )
            &&& both == Seq::new(
                (2 * given.len() - 1) as nat,
                |i: int|
                    if i % 2 == 0 {
                        given[i / 2]
                    } else {
                        told[i / 2]
                    },
            )
        }),
{
    let (failures, starts, start, duration) = choose|
        failures: Seq<Attempt<E>>,
        starts: Seq<Instant>,
        start: Instant,
        duration: Duration,
    | #[trigger]
        model.happens_so(replies, result, events, failures, starts, start, duration);
    let is_reply = |e: Event<O, E>| e is Replied;
    let is_notice = |e: Event<O, E>| e is Notified;
    let is_either = |e: Event<O, E>| e is Replied || e is Notified;
    let k = failures.len() as int;
    falling_replies::<P, F, C, O, E>(model, failures, starts);
    falling_notices::<P, F, C, O, E>(model, failures, starts);
    falling_replies_and_notices::<P, F, C, O, E>(model, failures, starts);
    let falling = model.falling::<O, E>(failures, starts);
    let given = events.filter(is_reply);
    let told = events.filter(is_notice);
    let both = events.filter(is_either);
    let told_so = Seq::new(
        (given.len() - 1) as nat,
        |i: int|
            Event::<O, E>::Notified(
                model.providers[i].0@,
                given[i]->Replied_0->Err_0,
                model.providers[i + 1].0@,
            ),
    );
    let both_so = Seq::new(
        (2 * given.len() - 1) as nat,
        |i: int|
            if i % 2 == 0 {
                given[i / 2]
            } else {
                told[i / 2]
            },
    );
    match result {
        Err(ChainError::AllProvidersFailed(all)) => {
            assert(told =~= told_so);
            assert(both =~= both_so);
        },
        _ => {
            let reply = match result {
                Ok(success) => Ok(success.value),
                Err(ChainError::Raised(error)) => Err(error),
                Err(ChainError::AllProvidersFailed(_)) => arbitrary(),
            };
            let last = model.turn(k, start, reply, duration, false);
            last_turn_filtered(model, k, start, reply, duration, is_reply);
            last_turn_filtered(model, k, start, reply, duration, is_notice);
            last_turn_filtered(model, k, start, reply, duration, is_either);
            Seq::filter_distributes_over_add(falling, last, is_reply);
            Seq::filter_distributes_over_add(falling, last, is_notice);
            Seq::filter_distributes_over_add(falling, last, is_either);
            assert(events == falling + last);
            assert(told =~= told_so);
            assert(both =~= both_so);
        },
    }
}

/// A chain without a callback calls none.
pub proof fn a_chain_without_callback_notifies_nobody<P, F, C, O, E>(
    model: ChainModel<P, F, C>,
    replies: Replies<O, E>,
    result: Result<ChainResult<O, E>, ChainError<E>>,
    events: Seq<Event<O, E>>,
) where F: FnOnce(&E) -> bool, C: FnOnce(&str, &E, &str)
    requires
        model.happens(replies, result, events),
        model.on_fallback is None,
    ensures
        events.filter(|e: Event<O, E>| e is Notified).len() == 0,
{
    let (failures, starts, start, duration) = choose|
        failures: Seq<Attempt<E>>,
        starts: Seq<Instant>,
        start: Instant,
        duration: Duration,
    | #[trigger]
        model.happens_so(replies, result, events, failures, starts, start, duration);
    let is_notice = |e: Event<O, E>| e is Notified;
    let k = failures.len() as int;
    falling_notices::<P, F, C, O, E>(model, failures, starts);
    let falling = model.falling::<O, E>(failures, starts);
    match result {
        Ok(success) => {
            let last = model.turn(k, start, Ok(success.value), duration, false);
            last_turn_filtered(model, k, start, Ok(success.value), duration, is_notice);
            Seq::filter_distributes_over_add(falling, last, is_notice);
        },
        Err(ChainError::Raised(error)) => {
            let last = model.turn(k, start, Err::<O, E>(error), duration, false);
            last_turn_filtered(model, k, start, Err(error), duration, is_notice);
            Seq::filter_distributes_over_add(falling, last, is_notice);
        },
        Err(ChainError::AllProvidersFailed(all)) => {},
    }
}

/// The predicate of a chain is asked exactly once about each error that a provider replies with, in
/// order; it may have answered `true` to each error that the chain fell back from, and `false` to
/// one that the call raises.
pub proof fn each_error_is_judged_once<P, F, C, O, E>(
    model: ChainModel<P, F, C>,
    replies: Replies<O, E>,
    result: Result<ChainResult<O, E>, ChainError<E>>,
    events: Seq<Event<O, E>>,
    f: F,
) where F: Fn(&E) -> bool, C: FnOnce(&str, &E, &str)
    requires
        model.happens(replies, result, events),
        model.should_fall_back == Some(f),
    ensures
        ({
            let failed = events.filter(
                |e: Event<O, E>| (e matches Event::Replied(reply) && reply is Err),
            );
            let judged = events.filter(|e: Event<O, E>| e is Judged);
            &&& judged.len() == failed.len()
            &&& forall|i: int|
                0 <= i < judged.len() ==> (#[trigger] judged[i] matches Event::Judged(error, verdict)
                    && {
                    &&& error == failed[i]->Replied_0->Err_0
                    &&& f.ensures((&error,), verdict)
                    &&& verdict == !(i + 1 == judged.len() && (result matches Err(
                        ChainError::Raised(_),
                    )))
                })
        }),
{
    let (failures, starts, start, duration) = choose|
        failures: Seq<Attempt<E>>,
        starts: Seq<Instant>,
        start: Instant,
        duration: Duration,
    | #[trigger]
        model.happens_so(replies, result, events, failures, starts, start, duration);
    let is_failure = |e: Event<O, E>| (e matches Event::Replied(reply) && reply is Err);
    let is_judged = |e: Event<O, E>| e is Judged;
    let k = failures.len() as int;
    falling_errors::<P, F, C, O, E>(model, failures, starts);
    falling_judgements::<P, F, C, O, E>(model, failures, starts);
    let falling = model.falling::<O, E>(failures, starts);
    assert forall|i: int| 0 <= i < k implies f.ensures(
        (&(#[trigger] failures[i]).error->0,),
        true,
    ) by {
        assert(model.fell_back(replies, i, failures[i]));
    }
    match result {
        Ok(success) => {
            let last = model.turn(k, start, Ok(success.value), duration, false);
            last_turn_filtered(model, k, start, Ok(success.value), duration, is_failure);
            last_turn_filtered(model, k, start, Ok(success.value), duration, is_judged);
            Seq::filter_distributes_over_add(falling, last, is_failure);
            Seq::filter_distributes_over_add(falling, last, is_judged);
        },
        Err(ChainError::Raised(error)) => {
            let last = model.turn(k, start, Err::<O, E>(error), duration, false);
            last_turn_filtered(model, k, start, Err(error), duration, is_failure);
            last_turn_filtered(model, k, start, Err(error), duration, is_judged);
            Seq::filter_distributes_over_add(falling, last, is_failure);
            Seq::filter_distributes_over_add(falling, last, is_judged);
        },
        Err(ChainError::AllProvidersFailed(all)) => {},
    }
}

/// The duration of attempt `i` is the time from a reading of the clock to one that comes right after
/// the reply of provider `i`. The first of them is taken after the providers before it replied and
/// the callback was called for them, and right before that reply, so that the spans of different
/// attempts do not overlap.
pub proof fn a_duration_spans_one_reply<P, F, C, O, E>(
    model: ChainModel<P, F, C>,
    replies: Replies<O, E>,
    result: Result<ChainResult<O, E>, ChainError<E>>,
    events: Seq<Event<O, E>>,
    i: int,
) where F: FnOnce(&E) -> bool, C: FnOnce(&str, &E, &str)
    requires
        model.happens(replies, result, events),
        match result {
            Ok(success) => 0 <= i < success.attempts@.len(),
            Err(ChainError::Raised(_)) => false,
            Err(ChainError::AllProvidersFailed(all)) => 0 <= i < all.attempts@.len(),
        },
    ensures
        exists|p: int|
            {
                let attempt = match result {
                    Ok(success) => success.attempts@[i],
                    Err(ChainError::Raised(_)) => arbitrary(),
                    Err(ChainError::AllProvidersFailed(all)) => all.attempts@[i],
                };
                let before = #[trigger] events.take(p);
                &&& 0 <= p < events.len() - 2
                &&& events[p] is ClockStarted
                &&& events[p + 1] == Event::Replied(Err::<O, E>(attempt.error->0))
                &&& events[p + 2] == Event::<O, E>::ClockRead(
                    events[p]->ClockStarted_0,
                    attempt.duration,
                )
                &&& before.filter(|e: Event<O, E>| e is Replied).len() == i
                &&& model.on_fallback is Some ==> before.filter(
                    |e: Event<O, E>| e is Notified,
                ).len() == i
            },
{
    let (failures, starts, start, duration) = choose|
        failures: Seq<Attempt<E>>,
        starts: Seq<Instant>,
        start: Instant,
        duration: Duration,
    | #[trigger]
        model.happens_so(replies, result, events, failures, starts, start, duration);
    let k = failures.len() as int;
    let falling = model.falling::<O, E>(failures, starts);
    let (before, rest) = falling_splits::<P, F, C, O, E>(model, failures, starts, i);
    falling_replies::<P, F, C, O, E>(model, failures.take(i), starts.take(i));
    falling_notices::<P, F, C, O, E>(model, failures.take(i), starts.take(i));
    let last = match result {
        Ok(success) => model.turn(k, start, Ok(success.value), duration, false),
        _ => Seq::empty(),
    };
    let span = seq![
        Event::ClockStarted(starts[i]),
        Event::Replied(Err(failures[i].error->0)),
        Event::ClockRead(starts[i], failures[i].duration),
    ];
    assert(events =~= falling + last);
    assert(events =~= before + span + (rest + last));
    let p = before.len() as int;
    assert(events.take(p) =~= before);
    assert(events[p] == span[0]);
    assert(events[p + 1] == span[1]);
    assert(events[p + 2] == span[2]);
}

/// Once a provider has replied, the predicate is called once if the reply is an error, the callback
/// is called once, after that, if the chain falls back to a next provider, and nothing else happens.
pub proof fn a_reply_is_judged_and_notified_once<P, F, C, O, E>(
    model: ChainModel<P, F, C>,
    i: int,
    reply: Result<O, E>,
    fell_back: bool,
)
    ensures
        reply is Ok ==> model.settling(i, reply, fell_back).len() == 0,
        reply matches Err(error) ==> {
            let judged = if model.should_fall_back is Some {
                1int
            } else {
                0
            };
            let notified = if fell_back && model.on_fallback is Some && i + 1
                < model.providers.len() {
                1int
            } else {
                0
            };
            let events = model.settling(i, reply, fell_back);
            &&& events.len() == judged + notified
            &&& judged == 1 ==> events[0] == Event::<O, E>::Judged(error, fell_back)
            &&& notified == 1 ==> events[judged] == Event::<O, E>::Notified(
                model.providers[i].0@,
                error,
                model.providers[i + 1].0@,
            )
        },
{
}

/// Splits the history of failures at the turn of provider `i`.
proof fn falling_splits<P, F, C, O, E>(
    model: ChainModel<P, F, C>,
    failures: Seq<Attempt<E>>,
    starts: Seq<Instant>,
    i: int,
) -> (split: (Seq<Event<O, E>>, Seq<Event<O, E>>))
    requires
        starts.len() == failures.len(),
        0 <= i < failures.len(),
    ensures
        split.0 == model.falling::<O, E>(failures.take(i), starts.take(i)),
        model.falling::<O, E>(failures, starts) == split.0 + seq![
            Event::ClockStarted(starts[i]),
            Event::Replied(Err(failures[i].error->0)),
            Event::ClockRead(starts[i], failures[i].duration),
        ] + split.1,
    decreases failures.len(),
{
    let k = failures.len() - 1;
    let before = model.falling::<O, E>(failures.take(i), starts.take(i));
    let span = seq![
        Event::ClockStarted(starts[i]),
        Event::Replied(Err(failures[i].error->0)),
        Event::ClockRead(starts[i], failures[i].duration),
    ];
    if i == k {
        assert(failures.take(i) =~= failures.drop_last());
        assert(starts.take(i) =~= starts.drop_last());
        let after = model.settling::<O, E>(i, Err(failures[i].error->0), true);
        assert(model.falling::<O, E>(failures, starts) =~= before + span + after);
        (before, after)
    } else {
        assert(failures.drop_last().take(i) =~= failures.take(i));
        assert(starts.drop_last().take(i) =~= starts.take(i));
        let (first, after) = falling_splits::<P, F, C, O, E>(
            model,
            failures.drop_last(),
            starts.drop_last(),
            i,
        );
        let last = model.turn::<O, E>(
            k,
            starts[k],
            Err(failures[k].error->0),
            failures[k].duration,
            true,
        );
        assert(model.falling::<O, E>(failures, starts) =~= before + span + (after + last));
        (before, after + last)
    }
}

/// What a filter keeps of a single event.
proof fn one_filtered<V>(event: V, keep: spec_fn(V) -> bool)
    ensures
        seq![event].filter(keep) == if keep(event) {
            seq![event]
        } else {
            Seq::empty()
        },
{
    reveal(Seq::filter);
    assert(seq![event].drop_last() =~= Seq::empty());
    assert(Seq::<V>::empty().filter(keep) =~= Seq::empty());
    assert(Seq::<V>::empty().push(event) =~= seq![event]);
}

/// What a filter keeps of no event.
proof fn none_filtered<V>(keep: spec_fn(V) -> bool)
    ensures
        Seq::<V>::empty().filter(keep) == Seq::<V>::empty(),
{
    reveal(Seq::filter);
}

/// What a filter that drops the readings of the clock keeps of a turn that ends in fallback or in an
/// error that is raised.
#[verifier::rlimit(40)]
#[verifier::spinoff_prover]
proof fn failed_turn_filtered<P, F, C, O, E>(
    model: ChainModel<P, F, C>,
    i: int,
    start: Instant,
    error: E,
    duration: Duration,
    fell_back: bool,
    keep: spec_fn(Event<O, E>) -> bool,
)
    requires
        !keep(Event::ClockStarted(start)),
        !keep(Event::ClockRead(start, duration)),
    ensures
        model.turn::<O, E>(i, start, Err(error), duration, fell_back).filter(keep) == (if keep(
            Event::Replied(Err(error)),
        ) {
            seq![Event::Replied(Err::<O, E>(error))]
        } else {
            Seq::empty()
        }) + (if model.should_fall_back is Some && keep(Event::Judged(error, fell_back)) {
            seq![Event::<O, E>::Judged(error, fell_back)]
        } else {
            Seq::empty()
        }) + (if fell_back && model.on_fallback is Some && i + 1 < model.providers.len() && keep(
            Event::Notified(model.providers[i].0@, error, model.providers[i + 1].0@),
        ) {
            seq![
                Event::<O, E>::Notified(
                    model.providers[i].0@,
                    error,
                    model.providers[i + 1].0@,
                ),
            ]
        } else {
            Seq::empty()
        }),
{
    let reply = Err::<O, E>(error);
    let started = Event::<O, E>::ClockStarted(start);
    let replied = Event::Replied(reply);
    let read = Event::<O, E>::ClockRead(start, duration);
    let judged = if model.should_fall_back is Some {
        seq![Event::<O, E>::Judged(error, fell_back)]
    } else {
        Seq::empty()
    };
    let notice = Event::<O, E>::Notified(
        model.providers[i].0@,
        error,
        model.providers[i + 1].0@,
    );
    let notified = if fell_back && model.on_fallback is Some && i + 1 < model.providers.len() {
        seq![notice]
    } else {
        Seq::empty()
    };
    none_filtered(keep);
    one_filtered(started, keep);
    one_filtered(replied, keep);
    one_filtered(read, keep);
    one_filtered(Event::<O, E>::Judged(error, fell_back), keep);
    one_filtered(notice, keep);
    let clock = seq![started] + seq![replied] + seq![read];
    assert(model.turn::<O, E>(i, start, reply, duration, fell_back) =~= clock + (judged + notified));
    Seq::filter_distributes_over_add(clock, judged + notified, keep);
    Seq::filter_distributes_over_add(judged, notified, keep);
    Seq::filter_distributes_over_add(seq![started] + seq![replied], seq![read], keep);
    Seq::filter_distributes_over_add(seq![started], seq![replied], keep);
    let left = seq![replied].filter(keep);
    assert(clock.filter(keep) =~= left);
    assert((left + judged.filter(keep)) + notified.filter(keep) =~= left + (judged.filter(keep)
        + notified.filter(keep)));
}

/// What a filter that drops the readings of the clock keeps of a turn that ends the call with the
/// reply of its provider.
proof fn last_turn_filtered<P, F, C, O, E>(
    model: ChainModel<P, F, C>,
    i: int,
    start: Instant,
    reply: Result<O, E>,
    duration: Duration,
    keep: spec_fn(Event<O, E>) -> bool,
)
    requires
        !keep(Event::ClockStarted(start)),
        !keep(Event::ClockRead(start, duration)),
    ensures
        model.turn::<O, E>(i, start, reply, duration, false).filter(keep) == (if keep(
            Event::Replied(reply),
        ) {
            seq![Event::Replied(reply)]
        } else {
            Seq::empty()
        }) + (if reply is Err && model.should_fall_back is Some && keep(
            Event::Judged(reply->Err_0, false),
        ) {
            seq![Event::<O, E>::Judged(reply->Err_0, false)]
        } else {
            Seq::empty()
        }),
{
    match reply {
        Ok(value) => {
            let started = Event::<O, E>::ClockStarted(start);
            let replied = Event::Replied(reply);
            let read = Event::<O, E>::ClockRead(start, duration);
            one_filtered(started, keep);
            one_filtered(replied, keep);
            one_filtered(read, keep);
            let clock = seq![started] + seq![replied] + seq![read];
            assert(model.turn::<O, E>(i, start, reply, duration, false) =~= clock);
            Seq::filter_distributes_over_add(seq![started] + seq![replied], seq![read], keep);
            Seq::filter_distributes_over_add(seq![started], seq![replied], keep);
            assert(clock.filter(keep) =~= seq![replied].filter(keep));
        },
        Err(error) => {
            failed_turn_filtered(model, i, start, error, duration, false, keep);
        },
    }
}

/// The replies in the history of failures.
proof fn falling_replies<P, F, C, O, E>(
    model: ChainModel<P, F, C>,
    failures: Seq<Attempt<E>>,
    starts: Seq<Instant>,
)
    requires
        starts.len() == failures.len(),
    ensures
        model.falling::<O, E>(failures, starts).filter(|e: Event<O, E>| e is Replied) == Seq::new(
            failures.len(),
            |i: int| Event::Replied(Err::<O, E>(failures[i].error->0)),
        ),
    decreases failures.len(),
{
    let keep = |e: Event<O, E>| e is Replied;
    let k = failures.len() - 1;
    let expected = Seq::new(
        failures.len(),
        |i: int| Event::Replied(Err::<O, E>(failures[i].error->0)),
    );
    if k < 0 {
        none_filtered(keep);
    } else {
        let last = failures[k];
        falling_replies::<P, F, C, O, E>(model, failures.drop_last(), starts.drop_last());
        failed_turn_filtered(model, k, starts[k], last.error->0, last.duration, true, keep);
        Seq::filter_distributes_over_add(
            model.falling::<O, E>(failures.drop_last(), starts.drop_last()),
            model.turn::<O, E>(k, starts[k], Err(last.error->0), last.duration, true),
            keep,
        );
    }
    assert(model.falling::<O, E>(failures, starts).filter(keep) =~= expected);
}

/// The replies that are errors in the history of failures.
proof fn falling_errors<P, F, C, O, E>(
    model: ChainModel<P, F, C>,
    failures: Seq<Attempt<E>>,
    starts: Seq<Instant>,
)
    requires
        starts.len() == failures.len(),
    ensures
        model.falling::<O, E>(failures, starts).filter(
            |e: Event<O, E>| (e matches Event::Replied(reply) && reply is Err),
        ) == Seq::new(
            failures.len(),
            |i: int| Event::Replied(Err::<O, E>(failures[i].error->0)),
        ),
    decreases failures.len(),
{
    let keep = |e: Event<O, E>| (e matches Event::Replied(reply) && reply is Err);
    let k = failures.len() - 1;
    let expected = Seq::new(
        failures.len(),
        |i: int| Event::Replied(Err::<O, E>(failures[i].error->0)),
    );
    if k < 0 {
        none_filtered(keep);
    } else {
        let last = failures[k];
        falling_errors::<P, F, C, O, E>(model, failures.drop_last(), starts.drop_last());
        failed_turn_filtered(model, k, starts[k], last.error->0, last.duration, true, keep);
        Seq::filter_distributes_over_add(
            model.falling::<O, E>(failures.drop_last(), starts.drop_last()),
            model.turn::<O, E>(k, starts[k], Err(last.error->0), last.duration, true),
            keep,
        );
    }
    assert(model.falling::<O, E>(failures, starts).filter(keep) =~= expected);
}

/// The judgements in the history of failures.
proof fn falling_judgements<P, F, C, O, E>(
    model: ChainModel<P, F, C>,
    failures: Seq<Attempt<E>>,
    starts: Seq<Instant>,
)
    requires
        starts.len() == failures.len(),
        model.should_fall_back is Some,
    ensures
        model.falling::<O, E>(failures, starts).filter(|e: Event<O, E>| e is Judged) == Seq::new(
            failures.len(),
            |i: int| Event::<O, E>::Judged(failures[i].error->0, true),
        ),
    decreases failures.len(),
{
    let keep = |e: Event<O, E>| e is Judged;
    let k = failures.len() - 1;
    let expected = Seq::new(
        failures.len(),
        |i: int| Event::<O, E>::Judged(failures[i].error->0, true),
    );
    if k < 0 {
        none_filtered(keep);
    } else {
        let last = failures[k];
        falling_judgements::<P, F, C, O, E>(model, failures.drop_last(), starts.drop_last());
        failed_turn_filtered(model, k, starts[k], last.error->0, last.duration, true, keep);
        Seq::filter_distributes_over_add(
            model.falling::<O, E>(failures.drop_last(), starts.drop_last()),
            model.turn::<O, E>(k, starts[k], Err(last.error->0), last.duration, true),
            keep,
        );
    }
    assert(model.falling::<O, E>(failures, starts).filter(keep) =~= expected);
}

/// How many of `k` failures have a next provider to fall back to, where there is a callback.
spec fn notices<P, F, C>(model: ChainModel<P, F, C>, k: nat) -> nat {
    if model.on_fallback is None {
        0
    } else if k > 0 && k == model.providers.len() {
        (k - 1) as nat
    } else {
        k
    }
}

/// The calls of the callback in the history of failures.
#[verifier::rlimit(40)]
#[verifier::spinoff_prover]
proof fn falling_notices<P, F, C, O, E>(
    model: ChainModel<P, F, C>,
    failures: Seq<Attempt<E>>,
    starts: Seq<Instant>,
)
    requires
        starts.len() == failures.len() <= model.providers.len(),
    ensures
        model.falling::<O, E>(failures, starts).filter(|e: Event<O, E>| e is Notified) == Seq::new(
            notices(model, failures.len()),
            |i: int|
                Event::<O, E>::Notified(
                    model.providers[i].0@,
                    failures[i].error->0,
                    model.providers[i + 1].0@,
                ),
        ),
    decreases failures.len(),
{
    let keep = |e: Event<O, E>| e is Notified;
    let k = failures.len() - 1;
    let expected = Seq::new(
        notices(model, failures.len()),
        |i: int|
            Event::<O, E>::Notified(
                model.providers[i].0@,
                failures[i].error->0,
                model.providers[i + 1].0@,
            ),
    );
    if k < 0 {
        none_filtered(keep);
    } else {
        let last = failures[k];
        let before = model.falling::<O, E>(failures.drop_last(), starts.drop_last());
        let turn = model.turn::<O, E>(k, starts[k], Err(last.error->0), last.duration, true);
        let told = Event::<O, E>::Notified(
            model.providers[k].0@,
            last.error->0,
            model.providers[k + 1].0@,
        );
        assert(turn.filter(keep) =~= if model.on_fallback is Some && k + 1
            < model.providers.len() {
            seq![told]
        } else {
            Seq::empty()
        }) by {
            failed_turn_filtered(model, k, starts[k], last.error->0, last.duration, true, keep);
        }
        assert(before.filter(keep) =~= expected.take(notices(model, k as nat) as int)) by {
            falling_notices::<P, F, C, O, E>(model, failures.drop_last(), starts.drop_last());
        }
        Seq::filter_distributes_over_add(before, turn, keep);
    }
    assert(model.falling::<O, E>(failures, starts).filter(keep) =~= expected);
}

/// The replies and the calls of the callback in the history of failures.
#[verifier::rlimit(40)]
#[verifier::spinoff_prover]
proof fn falling_replies_and_notices<P, F, C, O, E>(
    model: ChainModel<P, F, C>,
    failures: Seq<Attempt<E>>,
    starts: Seq<Instant>,
)
    requires
        starts.len() == failures.len() <= model.providers.len(),
        model.on_fallback is Some,
    ensures
        model.falling::<O, E>(failures, starts).filter(
            |e: Event<O, E>| e is Replied || e is Notified,
        ) == Seq::new(
            failures.len() + notices(model, failures.len()),
            |i: int|
                if i % 2 == 0 {
                    Event::Replied(Err::<O, E>(failures[i / 2].error->0))
                } else {
                    Event::<O, E>::Notified(
                        model.providers[i / 2].0@,
                        failures[i / 2].error->0,
                        model.providers[i / 2 + 1].0@,
                    )
                },
        ),
    decreases failures.len(),
{
    let keep = |e: Event<O, E>| e is Replied || e is Notified;
    let k = failures.len() - 1;
    let expected = Seq::new(
        failures.len() + notices(model, failures.len()),
        |i: int|
            if i % 2 == 0 {
                Event::Replied(Err::<O, E>(failures[i / 2].error->0))
            } else {
                Event::<O, E>::Notified(
                    model.providers[i / 2].0@,
                    failures[i / 2].error->0,
                    model.providers[i / 2 + 1].0@,
                )
            },
    );
    if k < 0 {
        none_filtered(keep);
    } else {
        let last = failures[k];
        let before = model.falling::<O, E>(failures.drop_last(), starts.drop_last());
        let turn = model.turn::<O, E>(k, starts[k], Err(last.error->0), last.duration, true);
        let replied = Event::Replied(Err::<O, E>(last.error->0));
        let told = Event::<O, E>::Notified(
            model.providers[k].0@,
            last.error->0,
            model.providers[k + 1].0@,
        );
        assert(turn.filter(keep) =~= if k + 1 < model.providers.len() {
            seq![replied, told]
        } else {
            seq![replied]
        }) by {
            failed_turn_filtered(model, k, starts[k], last.error->0, last.duration, true, keep);
        }
        assert(before.filter(keep) =~= expected.take(2 * k)) by {
            falling_replies_and_notices::<P, F, C, O, E>(
                model,
                failures.drop_last(),
                starts.drop_last(),
            );
        }
        Seq::filter_distributes_over_add(before, turn, keep);
    }
    assert(model.falling::<O, E>(failures, starts).filter(keep) =~= expected);
}

} // verus!
