use std::fmt::Display;
use std::time::Duration;
use vstd::prelude::*;
use vstd::string::StringExecFns;

verus! {

/// One provider attempt within a chain call.
#[derive(Debug)]
pub struct Attempt<E> {
    /// Provider name as passed to the chain.
    pub name: String,
    /// The error the provider returned (`None` on success).
    pub error: Option<E>,
    /// Wall time the provider took.
    pub duration: Duration,
}

/// Outcome of a successful call.
#[derive(Debug)]
pub struct ChainResult<O, E> {
    /// Whatever the winning provider returned.
    pub value: O,
    /// Name of the provider that succeeded.
    pub provider: String,
    /// Failed attempts that came before the success. Empty when the first
    /// provider worked.
    pub attempts: Vec<Attempt<E>>,
}

/// What a call fails with when every provider in the chain failed.
#[derive(Debug)]
pub struct AllProvidersFailed<E> {
    /// One [`Attempt`] per provider tried, in order.
    pub attempts: Vec<Attempt<E>>,
}

/// Why a call did not succeed.
#[derive(Debug)]
pub enum ChainError<E> {
    /// A provider's own error, handed on as it came, because it does not call for fallback.
    Raised(E),
    /// Every provider failed.
    AllProvidersFailed(AllProvidersFailed<E>),
}

/// The text of the names of `attempts`, in order.
pub open spec fn attempt_names<E>(attempts: Seq<Attempt<E>>) -> Seq<Seq<char>> {
    Seq::new(attempts.len(), |i: int| attempts[i].name@)
}

impl<E> AllProvidersFailed<E> {
    /// The text that [`message`](Self::message) gives.
    pub open spec fn message_text(self) -> Seq<char> {
        "all providers failed: "@ + crate::text::joined(attempt_names(self.attempts@), ", "@)
    }

    /// One line for people: the names of the providers, in order.
    pub fn message(&self) -> (text: String)
        ensures
            text@ == self.message_text(),
    {
        let mut text = String::from("all providers failed: ");
        let ghost names = attempt_names(self.attempts@);
        let ghost prefix = "all providers failed: "@;
        let n: usize = self.attempts.len();
        assert(names.take(0) =~= Seq::empty());
        assert(text@ =~= prefix + crate::text::joined(names.take(0), ", "@));
        for i in 0..n
            invariant
                n == self.attempts@.len(),
                names == attempt_names(self.attempts@),
                text@ == prefix + crate::text::joined(names.take(i as int), ", "@),
        {
            assert(names.take(i + 1).drop_last() =~= names.take(i as int));
            if i > 0 {
                text.append(", ");
            }
            text.append(self.attempts[i].name.as_str());
            assert(text@ =~= prefix + crate::text::joined(names.take(i + 1), ", "@));
        }
        assert(names.take(n as int) =~= names);
        text
    }
}

/// Lossy view of an [`Attempt`]. The error is recorded as its `Display` string.
#[derive(Debug)]
pub struct AttemptView {
    pub name: String,
    pub error: Option<String>,
    pub duration: Duration,
}

impl AttemptView {
    /// Whether this view shows `attempt`: the same name and duration, and the error's `Display`
    /// string where there is an error.
    pub open spec fn shows<E: Display>(self, attempt: Attempt<E>) -> bool {
        &&& self.name == attempt.name
        &&& self.duration == attempt.duration
        &&& match (attempt.error, self.error) {
            (Some(error), Some(text)) => vstd::string::to_string_from_display_ensures::<E>(&error, text),
            (None, None) => true,
            _ => false,
        }
    }
}

impl<'a, E: Display> vstd::std_specs::convert::FromSpecImpl<&'a Attempt<E>> for AttemptView {
    open spec fn obeys_from_spec() -> bool {
        false
    }

    open spec fn from_spec(attempt: &'a Attempt<E>) -> Self {
        arbitrary()
    }
}

impl<'a, E: Display> From<&'a Attempt<E>> for AttemptView {
    fn from(attempt: &'a Attempt<E>) -> (view: Self)
        ensures
            view.shows(*attempt),
            view.name == attempt.name,
            view.duration == attempt.duration,
            view.error is Some <==> attempt.error is Some,
            attempt.error is Some ==> vstd::string::to_string_from_display_ensures::<E>(
                &attempt.error->0,
                view.error->0,
            ),
    {
        let error = match &attempt.error {
            Some(error) => Some(error.to_string()),
            None => None,
        };
        AttemptView { name: attempt.name.clone(), error, duration: attempt.duration }
    }
}

} // verus!
