use futures::executor::block_on;
use futures::future::BoxFuture;
use llm_fallback_chain::{
    AsyncFallbackChain, ChainError, ChainResult, DynError, OnFallback, Progress, ShouldFallBack,
    Turn,
};
use std::sync::{Arc, Mutex};
use std::time::{Duration, Instant};

#[derive(Debug)]
struct RateLimited(&'static str);
impl std::fmt::Display for RateLimited {
    fn fmt(&self, f: &mut std::fmt::Formatter<'_>) -> std::fmt::Result {
        f.write_str(&format!("rate limited: {}", self.0))
    }
}
impl std::error::Error for RateLimited {}

#[derive(Debug)]
struct Validation(&'static str);
impl std::fmt::Display for Validation {
    fn fmt(&self, f: &mut std::fmt::Formatter<'_>) -> std::fmt::Result {
        f.write_str(&format!("validation: {}", self.0))
    }
}
impl std::error::Error for Validation {}

type Reply = Result<&'static str, DynError>;
type Provider = Box<dyn for<'a> Fn(&'a ()) -> BoxFuture<'a, Reply> + Send + Sync>;

fn gives(value: &'static str) -> Provider {
    Box::new(move |_| Box::pin(std::future::ready(Ok(value))))
}

fn fails<E: std::error::Error + Send + Sync + 'static>(error: fn() -> E) -> Provider {
    Box::new(move |_| {
        let error: DynError = Box::new(error());
        Box::pin(std::future::ready(Err(error)))
    })
}

fn drive<F, C>(
    chain: &AsyncFallbackChain<Provider, DynError, F, C>,
) -> Result<ChainResult<&'static str, DynError>, ChainError<DynError>>
where
    F: Fn(&DynError) -> bool,
    C: Fn(&str, &DynError, &str),
{
    let mut turn: Turn<DynError> = chain.begin();
    loop {
        let provider = chain.provider(&turn).expect("a provider to try");
        let start = Instant::now();
        let reply = block_on(provider(&()));
        match chain.resume(turn, reply, start.elapsed()) {
            Progress::Pending(next) => turn = next,
            Progress::Finished(result) => return result,
        }
    }
}

fn chain(
    providers: Vec<(&str, Provider)>,
) -> AsyncFallbackChain<Provider, DynError, ShouldFallBack, OnFallback> {
    AsyncFallbackChain::new(providers).unwrap()
}

#[test]
fn async_first_succeeds() {
    let chain = chain(vec![("anthropic", gives("a"))]);
    let result = drive(&chain).unwrap();
    assert_eq!(result.value, "a");
    assert_eq!(result.provider, "anthropic");
}

#[test]
fn async_second_succeeds_after_first_fails() {
    let chain = chain(vec![
        ("a", fails(|| RateLimited("nope"))),
        ("b", gives("b")),
    ]);
    let result = drive(&chain).unwrap();
    assert_eq!(result.value, "b");
    assert_eq!(result.provider, "b");
    assert_eq!(result.attempts.len(), 1);
}

#[test]
fn async_all_fail_raises() {
    let chain = chain(vec![
        ("a", fails(|| RateLimited("a"))),
        ("b", fails(|| RateLimited("b"))),
    ]);
    let err = drive(&chain).unwrap_err();
    assert!(matches!(err, ChainError::AllProvidersFailed(_)));
}

#[test]
fn async_callback_fires() {
    let calls: Arc<Mutex<Vec<(String, String)>>> = Arc::new(Default::default());
    let cc = calls.clone();
    let chain = chain(vec![("a", fails(|| RateLimited("a"))), ("b", gives("b"))])
        .with_on_fallback(move |f, _e, n| {
            cc.lock().unwrap().push((f.to_string(), n.to_string()));
        });
    drive(&chain).unwrap();
    let got = calls.lock().unwrap().clone();
    assert_eq!(got, vec![("a".to_string(), "b".to_string())]);
}

#[test]
fn async_custom_predicate_skips_non_retryable() {
    let chain = chain(vec![("a", fails(|| Validation("bad"))), ("b", gives("b"))])
        .with_should_fall_back(|err| err.downcast_ref::<RateLimited>().is_some());
    match drive(&chain).unwrap_err() {
        ChainError::Raised(err) => {
            assert!(err.downcast_ref::<Validation>().is_some());
            assert_eq!(err.to_string(), "validation: bad");
        }
        ChainError::AllProvidersFailed(_) => panic!("expected the provider's own error"),
    }
}

#[test]
fn async_with_skip_removes_named_provider() {
    let chain = chain(vec![
        ("a", fails(|| RateLimited("a"))),
        ("b", gives("b")),
        ("c", gives("c")),
    ])
    .with_skip(|n| n == "b")
    .unwrap();
    assert_eq!(chain.names(), vec!["a", "c"]);
    let result = drive(&chain).unwrap();
    assert_eq!(result.provider, "c");
}

#[test]
fn async_empty_providers_rejected() {
    let providers: Vec<(&str, Provider)> = vec![];
    match AsyncFallbackChain::<Provider>::new(providers) {
        Ok(_) => panic!("expected Err"),
        Err(e) => assert_eq!(e, "providers must be a non-empty list"),
    }
}

#[test]
fn async_with_skip_rejects_when_all_filtered_out() {
    match chain(vec![("a", gives("a"))]).with_skip(|_| true) {
        Ok(_) => panic!("expected Err"),
        Err(e) => assert_eq!(e, "with_skip removed all providers"),
    }
}

#[test]
fn turns_record_each_failure_with_its_duration() {
    let chain = chain(vec![("a", gives("a")), ("b", gives("b"))]);
    let turn = chain.begin();
    assert_eq!(turn.position(), 0);
    let first: Reply = Err("slow".into());
    let turn = match chain.resume(turn, first, Duration::from_millis(7)) {
        Progress::Pending(next) => next,
        Progress::Finished(_) => panic!("expected another turn"),
    };
    assert_eq!(turn.position(), 1);
    let second: Reply = Err("down".into());
    match chain.resume(turn, second, Duration::from_millis(9)) {
        Progress::Finished(Err(ChainError::AllProvidersFailed(all))) => {
            assert_eq!(all.message(), "all providers failed: a, b");
            assert_eq!(all.attempts[0].duration, Duration::from_millis(7));
            assert_eq!(all.attempts[1].duration, Duration::from_millis(9));
            assert_eq!(all.attempts[1].error.as_ref().unwrap().to_string(), "down");
        }
        _ => panic!("expected AllProvidersFailed"),
    }
}

#[test]
fn there_is_no_provider_past_the_end_of_a_chain() {
    let long = chain(vec![("a", gives("a")), ("b", gives("b"))]);
    let short = chain(vec![("a", gives("a"))]);
    let reply: Reply = Err("down".into());
    match long.resume(long.begin(), reply, Duration::ZERO) {
        Progress::Pending(turn) => {
            assert!(long.provider(&turn).is_some());
            assert!(short.provider(&turn).is_none());
        }
        Progress::Finished(_) => panic!("expected another turn"),
    }
}
