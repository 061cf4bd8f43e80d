use vstd::prelude::*;

use crate::attempt::{Attempt, ChainError, ChainResult};

verus! {

/// Where a call stands: the providers that have failed so far. The one to try next is the one
/// that follows them in the chain.
#[derive(Debug)]
pub struct Turn<E> {
    failures: Vec<Attempt<E>>,
}

impl<E> View for Turn<E> {
    type V = Seq<Attempt<E>>;

    closed spec fn view(&self) -> Seq<Attempt<E>> {
        self.failures@
    }
}

impl<E> Turn<E> {
    /// The turn before any provider was tried.
    pub(crate) fn first() -> (turn: Self)
        ensures
            turn@ == Seq::<Attempt<E>>::empty(),
    {
        Turn { failures: Vec::new() }
    }

    /// The place in the chain of the provider to try next.
    pub fn position(&self) -> (position: usize)
        ensures
            position == self@.len(),
    {
        self.failures.len()
    }

    /// The turn after one more failure.
    pub(crate) fn after(self, attempt: Attempt<E>) -> (turn: Self)
        ensures
            turn@ == self@.push(attempt),
    {
        let mut failures = self.failures;
        failures.push(attempt);
        Turn { failures }
    }

    /// The failures, in order.
    pub(crate) fn into_attempts(self) -> (attempts: Vec<Attempt<E>>)
        ensures
            attempts@ == self@,
    {
        self.failures
    }
}

/// How a call goes on once the provider of a turn has replied.
#[derive(Debug)]
pub enum Progress<O, E> {
    /// Another provider is to be tried.
    Pending(Turn<E>),
    /// The call is over.
    Finished(Result<ChainResult<O, E>, ChainError<E>>),
}

} // verus!
