use std::marker::PhantomData;
use vstd::prelude::*;

use crate::attempt::{ChainError, ChainResult};
use crate::model::ChainModel;
use crate::roster::Roster;
use crate::trace::{
    Ask, Event, FaithfulCallback, FaithfulPredicate, FaithfulProvider, Judge, Notify, Trace, Watch,
};

verus! {

/// Boxed dynamic error. Providers that return it can each fail in their own way.
pub type DynError = Box<dyn std::error::Error + Send + Sync>;

/// Sync provider callable: `(input) -> Result<O, E>`.
pub type SyncProvider<I, O, E = DynError> = Box<dyn Fn(&I) -> Result<O, E> + Send + Sync>;

/// Predicate deciding whether a given error should cause fallback.
/// Default: any error causes fallback.
pub type ShouldFallBack<E = DynError> = Box<dyn Fn(&E) -> bool + Send + Sync>;

/// Audit callback fired after a provider fails, before the next is tried.
/// `(failed_name, error, next_name)`.
pub type OnFallback<E = DynError> = Box<dyn Fn(&str, &E, &str) + Send + Sync>;

/// Ordered list of LLM providers to try in sequence.
///
/// Each provider is a `(name, callable)` pair. [`call`](Self::call) tries them
/// in order until one returns `Ok`. Returns a [`ChainResult`] describing what
/// won and what failed. If every provider returns `Err`, an
/// [`AllProvidersFailed`](crate::attempt::AllProvidersFailed) error is returned.
#[verifier::reject_recursive_types(I)]
#[verifier::reject_recursive_types(O)]
#[verifier::reject_recursive_types(E)]
pub struct FallbackChain<
    I,
    O,
    E = DynError,
    P = SyncProvider<I, O, E>,
    F = ShouldFallBack<E>,
    C = OnFallback<E>,
> {
    roster: Roster<P, F, C>,
    signature: PhantomData<(I, O, E)>,
}

impl<I, O, E, P, F, C> View for FallbackChain<I, O, E, P, F, C> {
    type V = ChainModel<P, F, C>;

    closed spec fn view(&self) -> ChainModel<P, F, C> {
        self.roster@
    }
}

impl<I, O, E, P, F, C> FallbackChain<I, O, E, P, F, C> {
    /// Build a new chain from an ordered list of `(name, provider)` pairs.
    ///
    /// Returns `Err` if `providers` is empty.
    pub fn new<S: Into<String>>(providers: Vec<(S, P)>) -> (result: Result<Self, &'static str>)
        ensures
            match result {
                Ok(chain) => {
                    &&& chain@.len() > 0
                    &&& chain@.lists(providers@)
                    &&& chain@.should_fall_back is None
                    &&& chain@.on_fallback is None
                },
                Err(message) => {
                    &&& providers@.len() == 0
                    &&& message@ == "providers must be a non-empty list"@
                },
            },
    {
        match Roster::new(providers) {
            Ok(roster) => Ok(FallbackChain { roster, signature: PhantomData }),
            Err(message) => Err(message),
        }
    }

    /// Set the predicate that decides whether a given error should cause
    /// fallback. Default falls back on any error.
    #[must_use]
    pub fn with_should_fall_back<G>(self, f: G) -> (chain: FallbackChain<I, O, E, P, G, C>) where
        G: Fn(&E) -> bool + Send + Sync + 'static,

        ensures
            chain@ == (ChainModel {
                providers: self@.providers,
                should_fall_back: Some(f),
                on_fallback: self@.on_fallback,
            }),
    {
        FallbackChain { roster: self.roster.with_should_fall_back(f), signature: PhantomData }
    }

    /// Set the audit callback fired after each fallback. Called with
    /// `(failed_name, error, next_name)` before the next provider is tried.
    #[must_use]
    pub fn with_on_fallback<D>(self, f: D) -> (chain: FallbackChain<I, O, E, P, F, D>) where
        D: Fn(&str, &E, &str) + Send + Sync + 'static,

        ensures
            chain@ == (ChainModel {
                providers: self@.providers,
                should_fall_back: self@.should_fall_back,
                on_fallback: Some(f),
            }),
    {
        FallbackChain { roster: self.roster.with_on_fallback(f), signature: PhantomData }
    }

    /// Skip a provider entirely when `predicate(&name)` returns `true`.
    /// Useful when an upstream circuit breaker says a provider is open.
    /// Returns `Err` if the filter removes every provider.
    pub fn with_skip<Q>(self, predicate: Q) -> (result: Result<Self, &'static str>) where
        Q: Fn(&str) -> bool,

        requires
            self@.may_ask(predicate),
        ensures
            exists|skip: Seq<bool>| #[trigger]
                self@.answers(predicate, skip) && match result {
                    Ok(chain) => chain@ == self@.without(skip) && chain@.len() > 0,
                    Err(message) => {
                        &&& self@.without(skip).len() == 0
                        &&& message@ == "with_skip removed all providers"@
                    },
                },
    {
        match self.roster.with_skip(&predicate, &mut Trace::new()) {
            Ok(roster) => Ok(FallbackChain { roster, signature: PhantomData }),
            Err(message) => Err(message),
        }
    }

    /// [`call`](Self::call) with a record: `trace` comes to hold each reply of a provider, each
    /// answer of the predicate, each call of the callback and each reading of the clock.
    pub fn call_recorded<T>(&self, input: &I, trace: &mut T) -> (result: Result<
        ChainResult<O, E>,
        ChainError<E>,
    >) where
        T: Watch<O, E>,
        P: FaithfulProvider<I, O, E>,
        for <'a>&'a P: Ask<I, O, E, T>,
        F: FaithfulPredicate<E>,
        for <'a>&'a F: Judge<O, E, T>,
        C: FaithfulCallback<E>,
        for <'a>&'a C: Notify<O, E, T>,

        requires
            self@.accepts(input),
        ensures
            self@.may_end(self@.replies_to(input), result),
            match result {
                Ok(success) => crate::model::all_clocked(success.attempts@),
                Err(ChainError::Raised(_)) => true,
                Err(ChainError::AllProvidersFailed(all)) => crate::model::all_clocked(all.attempts@),
            },
            exists|events: Seq<Event<O, E>>| #[trigger]
                self@.happens(self@.replies_to(input), result, events) && final(trace).events()
                    == old(trace).events() + events,
    {
        self.roster.run(input, trace)
    }

    /// Provider names in order.
    #[must_use]
    pub fn names(&self) -> (names: Vec<&str>)
        ensures
            names@.len() == self@.len() > 0,
            forall|i: int| 0 <= i < self@.len() ==> (#[trigger] names@[i])@ == self@.names()[i],
            names@.len() == self@.providers.len(),
            forall|i: int|
                0 <= i < names@.len() ==> (#[trigger] names@[i])@ == self@.providers[i].0@,
    {
        self.roster.names()
    }
}

impl<I, O, E, P, F, C> FallbackChain<I, O, E, P, F, C> where
    P: Fn(&I) -> Result<O, E>,
    F: Fn(&E) -> bool,
    C: Fn(&str, &E, &str),
 {
    /// Try each provider in order until one returns `Ok`.
    pub fn call(&self, input: &I) -> (result: Result<ChainResult<O, E>, ChainError<E>>)
        requires
            self@.accepts(input),
        ensures
            self@.may_end(self@.replies_to(input), result),
            match result {
                Ok(success) => crate::model::all_clocked(success.attempts@),
                Err(ChainError::Raised(_)) => true,
                Err(ChainError::AllProvidersFailed(all)) => crate::model::all_clocked(all.attempts@),
            },
            exists|events: Seq<Event<O, E>>| #[trigger]
                self@.happens(self@.replies_to(input), result, events),
    {
        self.call_recorded(input, &mut Trace::new())
    }
}

} // verus!
