use std::time::{Duration, Instant};
use vstd::prelude::*;

use crate::attempt::{AllProvidersFailed, Attempt, ChainError, ChainResult};
use crate::model::ChainModel;
use crate::trace::{
    Answer, Ask, Event, FaithfulCallback, FaithfulFilter, FaithfulPredicate, FaithfulProvider, History,
    Judge, Notify, Watch,
};
use crate::turn::{Progress, Turn};

verus! {

/// The judgement of a chain that was given no predicate: any error causes fallback.
fn default_should_fall_back<E>(_error: &E) -> (falls_back: bool)
    ensures
        falls_back,
{
    true
}

/// What both kinds of chain are made of. It never holds an empty list of providers.
pub(crate) struct Roster<P, F, C> {
    providers: Vec<(String, P)>,
    should_fall_back: Option<F>,
    on_fallback: Option<C>,
}

impl<P, F, C> View for Roster<P, F, C> {
    type V = ChainModel<P, F, C>;

    closed spec fn view(&self) -> ChainModel<P, F, C> {
        ChainModel {
            providers: self.providers@,
            should_fall_back: self.should_fall_back,
            on_fallback: self.on_fallback,
        }
    }
}

impl<P, F, C> Roster<P, F, C> {
    #[verifier::type_invariant]
    spec fn not_empty(self) -> bool {
        self.providers@.len() > 0
    }

    pub(crate) fn new<S: Into<String>>(providers: Vec<(S, P)>) -> (result: Result<
        Self,
        &'static str,
    >)
        ensures
            match result {
                Ok(roster) => {
                    &&& roster@.len() > 0
                    &&& roster@.lists(providers@)
                    &&& roster@.should_fall_back is None
                    &&& roster@.on_fallback is None
                },
                Err(message) => {
                    &&& providers@.len() == 0
                    &&& message@ == "providers must be a non-empty list"@
                },
            },
    {
        if providers.is_empty() {
            return Err("providers must be a non-empty list");
        }
        let ghost given = providers@;
        let mut named: Vec<(String, P)> = Vec::new();
        for pair in iter: providers
            invariant
                iter.seq() == given,
                named@.len() == iter.index(),
                forall|i: int|
                    #![trigger named@[i]]
                    0 <= i < named@.len() ==> {
                        &&& named@[i].1 == given[i].1
                        &&& call_ensures(<S as Into<String>>::into, (given[i].0,), named@[i].0)
                    },
        {
            let (name, provider) = pair;
            named.push((name.into(), provider));
        }
        Ok(Roster { providers: named, should_fall_back: None, on_fallback: None })
    }

    pub(crate) fn with_should_fall_back<G>(self, f: G) -> (roster: Roster<P, G, C>)
        ensures
            roster@ == (ChainModel {
                providers: self@.providers,
                should_fall_back: Some(f),
                on_fallback: self@.on_fallback,
            }),
    {
        proof {
            use_type_invariant(&self);
        }
        Roster {
            providers: self.providers,
            should_fall_back: Some(f),
            on_fallback: self.on_fallback,
        }
    }

    pub(crate) fn with_on_fallback<D>(self, f: D) -> (roster: Roster<P, F, D>)
        ensures
            roster@ == (ChainModel {
                providers: self@.providers,
                should_fall_back: self@.should_fall_back,
                on_fallback: Some(f),
            }),
    {
        proof {
            use_type_invariant(&self);
        }
        Roster {
            providers: self.providers,
            should_fall_back: self.should_fall_back,
            on_fallback: Some(f),
        }
    }

    /// Asks `predicate` about each name, once and in order, and drops the providers that it says to
    /// skip.
    pub(crate) fn with_skip<Q, T>(self, predicate: &Q, trace: &mut T) -> (result: Result<
        Self,
        &'static str,
    >) where T: History<(Seq<char>, bool)>, Q: FaithfulFilter, for <'a>&'a Q: Answer<T>
        requires
            self@.may_ask(*predicate),
        ensures
            exists|skip: Seq<bool>| #[trigger]
                self@.answers(*predicate, skip) && final(trace).events() == old(trace).events()
                    + Seq::new(skip.len(), |i: int| (self@.providers[i].0@, skip[i])) && match result {
                    Ok(roster) => roster@ == self@.without(skip) && roster@.len() > 0,
                    Err(message) => {
                        &&& self@.without(skip).len() == 0
                        &&& message@ == "with_skip removed all providers"@
                    },
                },
    {
        let ghost model = self@;
        let ghost before = trace.events();
        let ghost mut skip: Seq<bool> = Seq::empty();
        let mut left: Vec<(String, P)> = Vec::new();
        proof {
            assert(left@ =~= crate::model::kept(model.providers.take(0), skip));
            assert(trace.events() =~= before + Seq::new(
                skip.len(),
                |i: int| (model.providers[i].0@, skip[i]),
            ));
        }
        for pair in iter: self.providers
            invariant
                iter.seq() == model.providers,
                model.may_ask(*predicate),
                skip.len() == iter.index(),
                forall|i: int|
                    0 <= i < skip.len() ==> crate::model::may_answer(
                        *predicate,
                        model.name(i)@,
                        #[trigger] skip[i],
                    ),
                left@ == crate::model::kept(model.providers.take(iter.index()), skip),
                trace.events() == before + Seq::new(
                    skip.len(),
                    |i: int| (model.providers[i].0@, skip[i]),
                ),
        {
            let (name, provider) = pair;
            assert(name == model.providers[iter.index()].0);
            proof {
                (*predicate).faithful(name@);
            }
            let skipped = predicate.answer(name.as_str(), trace);
            proof {
                let i = iter.index();
                assert(model.providers.take(i + 1).drop_last() =~= model.providers.take(i));
                assert(skip.push(skipped).drop_last() =~= skip);
                skip = skip.push(skipped);
                assert(trace.events() =~= before + Seq::new(
                    skip.len(),
                    |j: int| (model.providers[j].0@, skip[j]),
                ));
            }
            if !skipped {
                left.push((name, provider));
            }
        }
        proof {
            assert(model.providers.take(model.providers.len() as int) =~= model.providers);
            assert(model.answers(*predicate, skip));
        }
        if left.is_empty() {
            return Err("with_skip removed all providers");
        }
        Ok(
            Roster {
                providers: left,
                should_fall_back: self.should_fall_back,
                on_fallback: self.on_fallback,
            },
        )
    }

    pub(crate) fn names(&self) -> (names: Vec<&str>)
        ensures
            names@.len() == self@.len() > 0,
            forall|i: int| 0 <= i < self@.len() ==> (#[trigger] names@[i])@ == self@.names()[i],
            names@.len() == self@.providers.len(),
            forall|i: int|
                0 <= i < names@.len() ==> (#[trigger] names@[i])@ == self@.providers[i].0@,
    {
        proof {
            use_type_invariant(self);
        }
        let mut names: Vec<&str> = Vec::new();
        let n: usize = self.providers.len();
        for i in 0..n
            invariant
                n == self.providers@.len(),
                names@.len() == i,
                forall|j: int| 0 <= j < i ==> (#[trigger] names@[j])@ == self@.names()[j],
        {
            names.push(self.providers[i].0.as_str());
        }
        names
    }

    /// The turn that a call begins with. There is a provider for it.
    pub(crate) fn first_turn<E>(&self) -> (turn: Turn<E>)
        ensures
            turn@ == Seq::<Attempt<E>>::empty(),
            0 < self@.len(),
    {
        proof {
            use_type_invariant(self);
        }
        Turn::first()
    }

    /// How many providers there are.
    pub(crate) fn len(&self) -> (n: usize)
        ensures
            n == self@.len(),
    {
        self.providers.len()
    }

    /// The provider at a place in the chain.
    pub(crate) fn provider(&self, i: usize) -> (provider: &P)
        requires
            i < self@.len(),
        ensures
            *provider == self@.provider(i as int),
    {
        &self.providers[i].1
    }

    /// Deals with the reply of the provider whose turn it was.
    pub(crate) fn settle<O, E, T>(
        &self,
        turn: Turn<E>,
        reply: Result<O, E>,
        duration: Duration,
        trace: &mut T,
    ) -> (progress: Progress<O, E>) where
        T: History<Event<O, E>>,
        F: FaithfulPredicate<E>,
        for <'a>&'a F: Judge<O, E, T>,
        C: FaithfulCallback<E>,
        for <'a>&'a C: Notify<O, E, T>,

        requires
            turn@.len() < self@.len(),
            self@.can_settle(turn@.len() as int, reply),
        ensures
            self@.settles(turn@, reply, duration, progress),
            final(trace).events() == old(trace).events() + self@.settling(
                turn@.len() as int,
                reply,
                !(progress matches Progress::Finished(Err(ChainError::Raised(_)))),
            ),
    {
        let i: usize = turn.position();
        let name = self.providers[i].0.clone();
        match reply {
            Ok(value) => {
                let success = ChainResult { value, provider: name, attempts: turn.into_attempts() };
                Progress::Finished(Ok(success))
            },
            Err(error) => {
                let falls_back = match &self.should_fall_back {
                    Some(f) => {
                        proof {
                            (*f).faithful(error);
                        }
                        f.judge(&error, trace)
                    },
                    None => default_should_fall_back(&error),
                };
                if !falls_back {
                    return Progress::Finished(Err(ChainError::Raised(error)));
                }
                let more = i < self.providers.len() - 1;
                if more {
                    if let Some(callback) = &self.on_fallback {
                        let next = self.providers[i + 1].0.as_str();
                        proof {
                            (*callback).faithful(name@, error, next@);
                        }
                        callback.notify(name.as_str(), &error, next, trace);
                    }
                }
                let after = turn.after(Attempt { name, error: Some(error), duration });
                if more {
                    Progress::Pending(after)
                } else {
                    let all = AllProvidersFailed { attempts: after.into_attempts() };
                    Progress::Finished(Err(ChainError::AllProvidersFailed(all)))
                }
            },
        }
    }

    /// Tries the providers in order until the call is over. All that this can do to the providers,
    /// the predicate, the callback and the clock is recorded in `trace`.
    pub(crate) fn run<I, O, E, T>(&self, input: &I, trace: &mut T) -> (result: Result<
        ChainResult<O, E>,
        ChainError<E>,
    >) where
        T: Watch<O, E>,
        P: FaithfulProvider<I, O, E>,
        for <'a>&'a P: Ask<I, O, E, T>,
        F: FaithfulPredicate<E>,
        for <'a>&'a F: Judge<O, E, T>,
        C: FaithfulCallback<E>,
        for <'a>&'a C: Notify<O, E, T>,

        requires
            self@.accepts(input),
        ensures
            self@.may_end(self@.replies_to(input), result),
            match result {
                Ok(success) => crate::model::all_clocked(success.attempts@),
                Err(ChainError::Raised(_)) => true,
                Err(ChainError::AllProvidersFailed(all)) => crate::model::all_clocked(all.attempts@),
            },
            exists|events: Seq<Event<O, E>>| #[trigger]
                self@.happens(self@.replies_to(input), result, events) && final(trace).events()
                    == old(trace).events() + events,
    {
        let mut turn: Turn<E> = self.first_turn();
        let ghost replies = self@.replies_to(input);
        let ghost before = trace.events();
        let ghost mut starts: Seq<Instant> = Seq::empty();
        assert(trace.events() =~= before + self@.falling::<O, E>(turn@, starts));
        loop
            invariant
                before == old(trace).events(),
                turn@.len() < self@.len(),
                self@.accepts(input),
                replies == self@.replies_to(input),
                self@.fell_through(replies, turn@),
                crate::model::all_clocked(turn@),
                starts.len() == turn@.len(),
                trace.events() == before + self@.falling::<O, E>(turn@, starts),
            decreases self@.len() - turn@.len(),
        {
            let ghost failures = turn@;
            let ghost k = failures.len() as int;
            assert(self@.reachable(replies, k));
            let provider = self.provider(turn.position());
            proof {
                (*provider).faithful(input);
            }
            let start = trace.start();
            let reply = provider.ask(input, trace);
            let duration = trace.since(&start);
            assert(crate::model::clocked(duration));
            let ghost replied = reply;
            let progress = self.settle(turn, reply, duration, trace);
            proof {
                crate::laws::turns_lead_to_a_permitted_end(
                    self@,
                    replies,
                    failures,
                    replied,
                    duration,
                    progress,
                );
                let fell_back = !(progress matches Progress::Finished(
                    Err(ChainError::Raised(_)),
                ));
                let turned = self@.turn(k, start, replied, duration, fell_back);
                assert(trace.events() =~= before + (self@.falling::<O, E>(failures, starts) + turned));
            }
            match progress {
                Progress::Pending(next) => {
                    proof {
                        assert(next@.drop_last() =~= failures);
                        assert(starts.push(start).drop_last() =~= starts);
                        starts = starts.push(start);
                    }
                    turn = next;
                },
                Progress::Finished(result) => {
                    proof {
                        let events = self@.falling::<O, E>(failures, starts) + self@.turn(
                            k,
                            start,
                            replied,
                            duration,
                            !(result matches Err(ChainError::Raised(_))),
                        );
                        if result matches Err(ChainError::AllProvidersFailed(_)) {
                            let all = result->Err_0->AllProvidersFailed_0.attempts@;
                            let all_starts = starts.push(start);
                            assert(all.drop_last() =~= failures);
                            assert(all_starts.drop_last() =~= starts);
                            assert(self@.happens_so(
                                replies,
                                result,
                                events,
                                all,
                                all_starts,
                                start,
                                duration,
                            ));
                        } else {
                            assert(self@.happens_so(
                                replies,
                                result,
                                events,
                                failures,
                                starts,
                                start,
                                duration,
                            ));
                        }
                        assert(self@.happens(replies, result, events));
                    }
                    return result;
                },
            }
        }
    }
}

} // verus!
