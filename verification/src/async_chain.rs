use std::marker::PhantomData;
use std::time::Duration;
use vstd::prelude::*;

use crate::attempt::{Attempt, ChainError};
use crate::model::ChainModel;
use crate::roster::Roster;
use crate::sync_chain::{DynError, OnFallback, ShouldFallBack};
use crate::trace::{
    Event, FaithfulCallback, FaithfulPredicate, History, Judge, Notify, Trace,
};
use crate::turn::{Progress, Turn};

verus! {

/// Async variant of [`FallbackChain`](crate::sync_chain::FallbackChain). Behaves the same way, but
/// leaves it to its caller to obtain the providers' replies: whoever drives a call begins with
/// [`begin`](Self::begin), awaits the [`provider`](Self::provider) of the turn, and hands its reply
/// to [`resume`](Self::resume), until the call is finished.
#[verifier::reject_recursive_types(E)]
pub struct AsyncFallbackChain<P, E = DynError, F = ShouldFallBack<E>, C = OnFallback<E>> {
    roster: Roster<P, F, C>,
    errors: PhantomData<E>,
}

impl<P, E, F, C> View for AsyncFallbackChain<P, E, F, C> {
    type V = ChainModel<P, F, C>;

    closed spec fn view(&self) -> ChainModel<P, F, C> {
        self.roster@
    }
}

impl<P, E, F, C> AsyncFallbackChain<P, E, F, C> {
    /// Build a new chain from an ordered list of `(name, provider)` pairs.
    ///
    /// Returns `Err` if `providers` is empty.
    pub fn new<S: Into<String>>(providers: Vec<(S, P)>) -> (result: Result<Self, &'static str>)
        ensures
            match result {
                Ok(chain) => {
                    &&& chain@.len() > 0
                    &&& chain@.lists(providers@)
                    &&& chain@.should_fall_back is None
                    &&& chain@.on_fallback is None
                },
                Err(message) => {
                    &&& providers@.len() == 0
                    &&& message@ == "providers must be a non-empty list"@
                },
            },
    {
        match Roster::new(providers) {
            Ok(roster) => Ok(AsyncFallbackChain { roster, errors: PhantomData }),
            Err(message) => Err(message),
        }
    }

    /// Set the predicate that decides whether a given error should cause
    /// fallback. Default falls back on any error.
    #[must_use]
    pub fn with_should_fall_back<G>(self, f: G) -> (chain: AsyncFallbackChain<P, E, G, C>) where
        G: Fn(&E) -> bool + Send + Sync + 'static,

        ensures
            chain@ == (ChainModel {
                providers: self@.providers,
                should_fall_back: Some(f),
                on_fallback: self@.on_fallback,
            }),
    {
        AsyncFallbackChain { roster: self.roster.with_should_fall_back(f), errors: PhantomData }
    }

    /// Set the audit callback fired after each fallback. Called with
    /// `(failed_name, error, next_name)` before the next provider is tried.
    #[must_use]
    pub fn with_on_fallback<D>(self, f: D) -> (chain: AsyncFallbackChain<P, E, F, D>) where
        D: Fn(&str, &E, &str) + Send + Sync + 'static,

        ensures
            chain@ == (ChainModel {
                providers: self@.providers,
                should_fall_back: self@.should_fall_back,
                on_fallback: Some(f),
            }),
    {
        AsyncFallbackChain { roster: self.roster.with_on_fallback(f), errors: PhantomData }
    }

    /// Skip a provider entirely when `predicate(&name)` returns `true`.
    /// Returns `Err` if the filter removes every provider.
    pub fn with_skip<Q>(self, predicate: Q) -> (result: Result<Self, &'static str>) where
        Q: Fn(&str) -> bool,

        requires
            self@.may_ask(predicate),
        ensures
            exists|skip: Seq<bool>| #[trigger]
                self@.answers(predicate, skip) && match result {
                    Ok(chain) => chain@ == self@.without(skip) && chain@.len() > 0,
                    Err(message) => {
                        &&& self@.without(skip).len() == 0
                        &&& message@ == "with_skip removed all providers"@
                    },
                },
    {
        match self.roster.with_skip(&predicate, &mut Trace::new()) {
            Ok(roster) => Ok(AsyncFallbackChain { roster, errors: PhantomData }),
            Err(message) => Err(message),
        }
    }

    /// Provider names in order.
    #[must_use]
    pub fn names(&self) -> (names: Vec<&str>)
        ensures
            names@.len() == self@.len() > 0,
            forall|i: int| 0 <= i < self@.len() ==> (#[trigger] names@[i])@ == self@.names()[i],
            names@.len() == self@.providers.len(),
            forall|i: int|
                0 <= i < names@.len() ==> (#[trigger] names@[i])@ == self@.providers[i].0@,
    {
        self.roster.names()
    }

    /// Begin a call: the turn of the first provider.
    pub fn begin(&self) -> (turn: Turn<E>)
        ensures
            turn@ == Seq::<Attempt<E>>::empty(),
            0 < self@.len(),
    {
        self.roster.first_turn()
    }

    /// The provider whose turn it is. `None` if the chain has no provider that far down.
    pub fn provider(&self, turn: &Turn<E>) -> (provider: Option<&P>)
        ensures
            match provider {
                Some(provider) => {
                    &&& turn@.len() < self@.len()
                    &&& *provider == self@.provider(turn@.len() as int)
                },
                None => turn@.len() >= self@.len(),
            },
    {
        let i: usize = turn.position();
        if i < self.roster.len() {
            Some(self.roster.provider(i))
        } else {
            None
        }
    }

    /// Go on with a call, once the provider whose turn it was has replied. `duration` is the wall
    /// time it took.
    pub fn resume<O>(&self, turn: Turn<E>, reply: Result<O, E>, duration: Duration) -> (progress:
        Progress<O, E>) where F: Fn(&E) -> bool, C: Fn(&str, &E, &str)
        requires
            turn@.len() < self@.len(),
            self@.can_settle(turn@.len() as int, reply),
        ensures
            self@.settles(turn@, reply, duration, progress),
    {
        self.resume_recorded(turn, reply, duration, &mut Trace::<Event<O, E>>::new())
    }

    /// [`resume`](Self::resume) with a record: `trace` comes to hold the answer of the predicate and
    /// the call of the callback.
    pub fn resume_recorded<O, T>(
        &self,
        turn: Turn<E>,
        reply: Result<O, E>,
        duration: Duration,
        trace: &mut T,
    ) -> (progress: Progress<O, E>) where
        T: History<Event<O, E>>,
        F: FaithfulPredicate<E>,
        for <'a>&'a F: Judge<O, E, T>,
        C: FaithfulCallback<E>,
        for <'a>&'a C: Notify<O, E, T>,

        requires
            turn@.len() < self@.len(),
            self@.can_settle(turn@.len() as int, reply),
        ensures
            self@.settles(turn@, reply, duration, progress),
            final(trace).events() == old(trace).events() + self@.settling(
                turn@.len() as int,
                reply,
                !(progress matches Progress::Finished(Err(ChainError::Raised(_)))),
            ),
    {
        self.roster.settle(turn, reply, duration, trace)
    }
}

} // verus!
