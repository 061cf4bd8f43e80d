use std::time::{Duration, Instant};
use vstd::prelude::*;

verus! {

/// What a chain does to the world outside it in the course of a call.
pub enum Event<O, E> {
    /// The clock was read, to time what follows.
    ClockStarted(Instant),
    /// A provider was called and gave this reply.
    Replied(Result<O, E>),
    /// The clock was read again: so long since the first reading.
    ClockRead(Instant, Duration),
    /// The predicate was called with this error and gave this answer.
    Judged(E, bool),
    /// The callback was called with the name of the failed provider, its error and the name of the
    /// next provider.
    Notified(Seq<char>, E, Seq<char>),
}

/// Something that events are recorded in.
pub trait History<V> {
    /// The events so far, in the order in which they happened.
    spec fn events(&self) -> Seq<V>;
}

/// A history, kept for proofs alone. Nothing but the calls of this module adds to it.
pub struct Trace<V> {
    events: Ghost<Seq<V>>,
}

impl<V> History<V> for Trace<V> {
    closed spec fn events(&self) -> Seq<V> {
        self.events@
    }
}

impl<V> Trace<V> {
    /// The history before anything happened.
    pub fn new() -> (trace: Self)
        ensures
            trace.events() == Seq::<V>::empty(),
    {
        Trace { events: Ghost(Seq::empty()) }
    }
}

/// A clock whose every reading is recorded.
pub trait Watch<O, E>: History<Event<O, E>> + Sized {
    /// Reads the clock.
    fn start(&mut self) -> (start: Instant)
        ensures
            call_ensures(Instant::now, (), start),
            final(self).events() == old(self).events().push(Event::ClockStarted(start)),
    ;

    /// The time since a reading.
    fn since(&mut self, start: &Instant) -> (duration: Duration)
        ensures
            call_ensures(Instant::elapsed, (start,), duration),
            final(self).events() == old(self).events().push(Event::ClockRead(*start, duration)),
    ;
}

impl<O, E> Watch<O, E> for Trace<Event<O, E>> {
    fn start(&mut self) -> (start: Instant) {
        let start = Instant::now();
        self.events = Ghost(self.events@.push(Event::ClockStarted(start)));
        start
    }

    fn since(&mut self, start: &Instant) -> (duration: Duration) {
        let duration = start.elapsed();
        self.events = Ghost(self.events@.push(Event::ClockRead(*start, duration)));
        duration
    }
}

/// What may be said of one call of a provider.
pub trait Provider<I, O, E>: Sized {
    /// It may be called with `input`.
    spec fn can_ask(self, input: &I) -> bool;

    /// It may reply so to `input`.
    spec fn may_reply(self, input: &I, reply: Result<O, E>) -> bool;
}

impl<I, O, E, G: FnOnce(&I) -> Result<O, E>> Provider<I, O, E> for G {
    open spec fn can_ask(self, input: &I) -> bool {
        self.requires((input,))
    }

    open spec fn may_reply(self, input: &I, reply: Result<O, E>) -> bool {
        self.ensures((input,), reply)
    }
}

/// A provider of which a reference does what the provider itself does. This allows no call of it; it
/// is what proofs know of the reference.
pub trait FaithfulProvider<I, O, E>: FnOnce(&I) -> Result<O, E> + Sized where
    for <'a>&'a Self: Provider<I, O, E>,
 {
    proof fn faithful(self, input: &I)
        ensures
            self.requires((input,)) ==> (&self).can_ask(input),
            forall|reply: Result<O, E>| #[trigger]
                (&self).may_reply(input, reply) ==> self.ensures((input,), reply),
    ;
}

impl<I, O, E, G: Fn(&I) -> Result<O, E>> FaithfulProvider<I, O, E> for G {
    proof fn faithful(self, input: &I) {
    }
}

/// A provider that is used up by calling it, so that there is one reply, and one record of it.
pub trait Ask<I, O, E, T: History<Event<O, E>>>: Provider<I, O, E> {
    fn ask(self, input: &I, trace: &mut T) -> (reply: Result<O, E>)
        requires
            self.can_ask(input),
        ensures
            self.may_reply(input, reply),
            final(trace).events() == old(trace).events().push(Event::Replied(reply)),
    ;
}

impl<I, O, E, G: FnOnce(&I) -> Result<O, E>> Ask<I, O, E, Trace<Event<O, E>>> for G {
    fn ask(self, input: &I, trace: &mut Trace<Event<O, E>>) -> (reply: Result<O, E>) {
        let reply = self(input);
        trace.events = Ghost(trace.events@.push(Event::Replied(reply)));
        reply
    }
}

/// What may be said of one call of the predicate that judges errors.
pub trait Predicate<E>: Sized {
    /// It may be called with `error`.
    spec fn can_judge(self, error: E) -> bool;

    /// It may answer so to `error`.
    spec fn may_judge(self, error: E, falls_back: bool) -> bool;
}

impl<E, G: FnOnce(&E) -> bool> Predicate<E> for G {
    open spec fn can_judge(self, error: E) -> bool {
        self.requires((&error,))
    }

    open spec fn may_judge(self, error: E, falls_back: bool) -> bool {
        self.ensures((&error,), falls_back)
    }
}

/// A predicate on errors of which a reference answers what the predicate itself answers. This allows
/// no call of it.
pub trait FaithfulPredicate<E>: FnOnce(&E) -> bool + Sized where for <'a>&'a Self: Predicate<E> {
    proof fn faithful(self, error: E)
        ensures
            self.requires((&error,)) ==> (&self).can_judge(error),
            forall|falls_back: bool| #[trigger]
                (&self).may_judge(error, falls_back) ==> self.ensures((&error,), falls_back),
    ;
}

impl<E, G: Fn(&E) -> bool> FaithfulPredicate<E> for G {
    proof fn faithful(self, error: E) {
    }
}

/// A predicate on errors that is used up by calling it.
pub trait Judge<O, E, T: History<Event<O, E>>>: Predicate<E> {
    fn judge(self, error: &E, trace: &mut T) -> (falls_back: bool)
        requires
            self.can_judge(*error),
        ensures
            self.may_judge(*error, falls_back),
            final(trace).events() == old(trace).events().push(Event::Judged(*error, falls_back)),
    ;
}

impl<O, E, G: FnOnce(&E) -> bool> Judge<O, E, Trace<Event<O, E>>> for G {
    fn judge(self, error: &E, trace: &mut Trace<Event<O, E>>) -> (falls_back: bool) {
        let falls_back = self(error);
        trace.events = Ghost(trace.events@.push(Event::Judged(*error, falls_back)));
        falls_back
    }
}

/// What may be said of one call of the audit callback.
pub trait Callback<E>: Sized {
    /// It may be called with these names and `error`.
    spec fn can_notify(self, failed: Seq<char>, error: E, next: Seq<char>) -> bool;

    /// It may have been called with these names and `error`.
    spec fn may_notify(self, failed: Seq<char>, error: E, next: Seq<char>) -> bool;
}

impl<E, G: FnOnce(&str, &E, &str)> Callback<E> for G {
    open spec fn can_notify(self, failed: Seq<char>, error: E, next: Seq<char>) -> bool {
        forall|f: &str, n: &str|
            f@ == failed && n@ == next ==> #[trigger] self.requires((f, &error, n))
    }

    open spec fn may_notify(self, failed: Seq<char>, error: E, next: Seq<char>) -> bool {
        exists|f: &str, n: &str|
            f@ == failed && n@ == next && #[trigger] self.ensures((f, &error, n), ())
    }
}

/// An audit callback of which a reference does what the callback itself does. This allows no call of
/// it.
pub trait FaithfulCallback<E>: FnOnce(&str, &E, &str) + Sized where
    for <'a>&'a Self: Callback<E>,
 {
    proof fn faithful(self, failed: Seq<char>, error: E, next: Seq<char>)
        ensures
            crate::model::can_notify(self, failed, error, next) ==> (&self).can_notify(
                failed,
                error,
                next,
            ),
            (&self).may_notify(failed, error, next) ==> crate::model::may_notify(
                self,
                failed,
                error,
                next,
            ),
    ;
}

impl<E, G: Fn(&str, &E, &str)> FaithfulCallback<E> for G {
    proof fn faithful(self, failed: Seq<char>, error: E, next: Seq<char>) {
    }
}

/// An audit callback that is used up by calling it.
pub trait Notify<O, E, T: History<Event<O, E>>>: Callback<E> {
    fn notify(self, failed: &str, error: &E, next: &str, trace: &mut T)
        requires
            self.can_notify(failed@, *error, next@),
        ensures
            self.may_notify(failed@, *error, next@),
            final(trace).events() == old(trace).events().push(
                Event::Notified(failed@, *error, next@),
            ),
    ;
}

impl<O, E, G: FnOnce(&str, &E, &str)> Notify<O, E, Trace<Event<O, E>>> for G {
    fn notify(self, failed: &str, error: &E, next: &str, trace: &mut Trace<Event<O, E>>) {
        self(failed, error, next);
        trace.events = Ghost(trace.events@.push(Event::Notified(failed@, *error, next@)));
    }
}

/// What may be said of one call of the predicate that skips providers by name.
pub trait Filter: Sized {
    /// It may be called with `name`.
    spec fn can_answer(self, name: Seq<char>) -> bool;

    /// It may answer so to `name`.
    spec fn may_answer(self, name: Seq<char>, answer: bool) -> bool;
}

impl<G: FnOnce(&str) -> bool> Filter for G {
    open spec fn can_answer(self, name: Seq<char>) -> bool {
        forall|text: &str| text@ == name ==> #[trigger] self.requires((text,))
    }

    open spec fn may_answer(self, name: Seq<char>, answer: bool) -> bool {
        exists|text: &str| text@ == name && #[trigger] self.ensures((text,), answer)
    }
}

/// A predicate on names of which a reference answers what the predicate itself answers. This allows no
/// call of it.
pub trait FaithfulFilter: FnOnce(&str) -> bool + Sized where for <'a>&'a Self: Filter {
    proof fn faithful(self, name: Seq<char>)
        ensures
            crate::model::can_answer(self, name) ==> (&self).can_answer(name),
            forall|answer: bool| #[trigger]
                (&self).may_answer(name, answer) ==> crate::model::may_answer(self, name, answer),
    ;
}

impl<G: Fn(&str) -> bool> FaithfulFilter for G {
    proof fn faithful(self, name: Seq<char>) {
    }
}

/// A predicate on names that is used up by calling it.
pub trait Answer<T: History<(Seq<char>, bool)>>: Filter {
    fn answer(self, name: &str, trace: &mut T) -> (answer: bool)
        requires
            self.can_answer(name@),
        ensures
            self.may_answer(name@, answer),
            final(trace).events() == old(trace).events().push((name@, answer)),
    ;
}

impl<G: FnOnce(&str) -> bool> Answer<Trace<(Seq<char>, bool)>> for G {
    fn answer(self, name: &str, trace: &mut Trace<(Seq<char>, bool)>) -> (answer: bool) {
        let answer = self(name);
        trace.events = Ghost(trace.events@.push((name@, answer)));
        answer
    }
}

} // verus!
