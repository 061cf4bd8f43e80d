use llm_fallback_chain::{
    AllProvidersFailed, Attempt, ChainError, DynError, FallbackChain, SyncProvider,
};
use std::sync::{Arc, Mutex};
use std::time::{Duration, Instant};

#[derive(Debug)]
struct RateLimited(&'static str);
impl std::fmt::Display for RateLimited {
    fn fmt(&self, f: &mut std::fmt::Formatter<'_>) -> std::fmt::Result {
        f.write_str(&format!("rate limited: {}", self.0))
    }
}
impl std::error::Error for RateLimited {}

#[derive(Debug)]
struct Validation(&'static str);
impl std::fmt::Display for Validation {
    fn fmt(&self, f: &mut std::fmt::Formatter<'_>) -> std::fmt::Result {
        f.write_str(&format!("validation: {}", self.0))
    }
}
impl std::error::Error for Validation {}

#[derive(Debug)]
struct In {
    a: i32,
    b: i32,
    mode: &'static str,
}

fn all_failed(err: ChainError<DynError>) -> AllProvidersFailed<DynError> {
    match err {
        ChainError::AllProvidersFailed(all) => all,
        ChainError::Raised(e) => panic!("expected AllProvidersFailed, got {}", e),
    }
}

fn raised(err: ChainError<DynError>) -> DynError {
    match err {
        ChainError::Raised(e) => e,
        ChainError::AllProvidersFailed(_) => panic!("expected a provider's own error"),
    }
}

fn duration_ms(attempt: &Attempt<DynError>) -> f64 {
    attempt.duration.as_secs_f64() * 1000.0
}

// ---------- construction ----------

#[test]
fn empty_providers_rejected() {
    let providers: Vec<(&str, SyncProvider<(), i32>)> = vec![];
    let err = match FallbackChain::<(), i32>::new(providers) {
        Ok(_) => panic!("expected Err"),
        Err(e) => e,
    };
    assert!(err.contains("non-empty"));
    assert_eq!(err, "providers must be a non-empty list");
}

#[test]
fn names_property_preserves_order() {
    let chain = FallbackChain::<(), &'static str>::new(vec![
        ("anthropic", Box::new(|_: &()| Ok("a")) as _),
        ("openai", Box::new(|_: &()| Ok("b")) as _),
        ("gemini", Box::new(|_: &()| Ok("c")) as _),
    ])
    .unwrap();
    assert_eq!(chain.names(), vec!["anthropic", "openai", "gemini"]);
}

#[test]
fn names_given_as_strings_are_kept() {
    let chain = FallbackChain::<(), &'static str>::new(vec![
        ("anthropic".to_string(), Box::new(|_: &()| Ok("a")) as _),
        ("".to_string(), Box::new(|_: &()| Ok("b")) as _),
        ("anthropic".to_string(), Box::new(|_: &()| Ok("c")) as _),
    ])
    .unwrap();
    assert_eq!(chain.names(), vec!["anthropic", "", "anthropic"]);
}

fn shared_between_threads<T: Send + Sync>(_: &T) {}

#[test]
fn a_chain_of_boxed_providers_is_send_and_sync() {
    let chain =
        FallbackChain::<(), &'static str>::new(vec![("a", Box::new(|_: &()| Ok("a")) as _)])
            .unwrap();
    shared_between_threads(&chain);
}

// ---------- success paths ----------

#[test]
fn first_provider_succeeds() {
    let chain = FallbackChain::<&str, String>::new(vec![
        (
            "anthropic",
            Box::new(|p: &&str| -> Result<String, DynError> { Ok(format!("a:{}", p)) }) as _,
        ),
        (
            "openai",
            Box::new(|p: &&str| -> Result<String, DynError> { Ok(format!("o:{}", p)) }) as _,
        ),
    ])
    .unwrap();
    let result = chain.call(&"hi").unwrap();
    assert_eq!(result.value, "a:hi");
    assert_eq!(result.provider, "anthropic");
    assert!(result.attempts.is_empty());
}

#[test]
fn second_provider_succeeds_after_first_fails() {
    let chain = FallbackChain::<&str, String>::new(vec![
        (
            "anthropic",
            Box::new(|_: &&str| -> Result<String, DynError> {
                Err(Box::new(RateLimited("anthropic out of quota")))
            }) as _,
        ),
        (
            "openai",
            Box::new(|p: &&str| -> Result<String, DynError> { Ok(format!("o:{}", p)) }) as _,
        ),
    ])
    .unwrap();
    let result = chain.call(&"hi").unwrap();
    assert_eq!(result.value, "o:hi");
    assert_eq!(result.provider, "openai");
    assert_eq!(result.attempts.len(), 1);
    assert_eq!(result.attempts[0].name, "anthropic");
    assert!(result.attempts[0].error.is_some());
    let err_string = result.attempts[0].error.as_ref().unwrap().to_string();
    assert!(err_string.contains("rate limited"));
    assert!(duration_ms(&result.attempts[0]) >= 0.0);
}

#[test]
fn third_provider_succeeds_after_two_failures() {
    let chain = FallbackChain::<(), &'static str>::new(vec![
        (
            "a",
            Box::new(|_: &()| -> Result<&'static str, DynError> { Err("a".into()) }) as _,
        ),
        (
            "b",
            Box::new(|_: &()| -> Result<&'static str, DynError> { Err("b".into()) }) as _,
        ),
        ("c", Box::new(|_: &()| Ok("ok")) as _),
    ])
    .unwrap();
    let result = chain.call(&()).unwrap();
    assert_eq!(result.value, "ok");
    assert_eq!(result.provider, "c");
    let names: Vec<&str> = result.attempts.iter().map(|a| a.name.as_str()).collect();
    assert_eq!(names, vec!["a", "b"]);
}

#[test]
fn providers_after_the_winner_are_not_called() {
    let calls = Arc::new(Mutex::new(0));
    let cc = calls.clone();
    let chain = FallbackChain::<(), &'static str>::new(vec![
        (
            "a",
            Box::new(|_: &()| -> Result<&'static str, DynError> { Err("a".into()) }) as _,
        ),
        ("b", Box::new(|_: &()| Ok("b")) as _),
        (
            "c",
            Box::new(move |_: &()| -> Result<&'static str, DynError> {
                *cc.lock().unwrap() += 1;
                Ok("c")
            }) as _,
        ),
    ])
    .unwrap();
    assert_eq!(chain.call(&()).unwrap().value, "b");
    assert_eq!(*calls.lock().unwrap(), 0);
}

#[test]
fn input_is_forwarded() {
    let chain = FallbackChain::<In, String>::new(vec![(
        "p",
        Box::new(|i: &In| -> Result<String, DynError> {
            Ok(format!("{}+{}={}@{}", i.a, i.b, i.a + i.b, i.mode))
        }) as _,
    )])
    .unwrap();
    let result = chain
        .call(&In {
            a: 1,
            b: 2,
            mode: "x",
        })
        .unwrap();
    assert_eq!(result.value, "1+2=3@x");
}

// ---------- failure paths ----------

#[test]
fn all_providers_fail_raises_aggregate() {
    let chain = FallbackChain::<(), &'static str>::new(vec![
        (
            "a",
            Box::new(|_: &()| -> Result<&'static str, DynError> {
                Err(Box::new(RateLimited("a down")))
            }) as _,
        ),
        (
            "b",
            Box::new(|_: &()| -> Result<&'static str, DynError> {
                Err(Box::new(RateLimited("b down")))
            }) as _,
        ),
    ])
    .unwrap();
    let agg = all_failed(chain.call(&()).unwrap_err());
    assert_eq!(agg.attempts.len(), 2);
    assert_eq!(agg.attempts[0].name, "a");
    assert_eq!(agg.attempts[1].name, "b");
    for a in &agg.attempts {
        assert!(a
            .error
            .as_ref()
            .unwrap()
            .to_string()
            .contains("rate limited"));
    }
}

#[test]
fn custom_predicate_skips_non_retryable() {
    let openai_calls = Arc::new(Mutex::new(0));
    let oc = openai_calls.clone();
    let chain = FallbackChain::<(), &'static str>::new(vec![
        (
            "anthropic",
            Box::new(|_: &()| -> Result<&'static str, DynError> {
                Err(Box::new(Validation("bad input")))
            }) as _,
        ),
        (
            "openai",
            Box::new(move |_: &()| -> Result<&'static str, DynError> {
                *oc.lock().unwrap() += 1;
                Ok("should not happen")
            }) as _,
        ),
    ])
    .unwrap()
    .with_should_fall_back(|err| err.downcast_ref::<RateLimited>().is_some());

    // the original Validation error comes back, not AllProvidersFailed
    let err = raised(chain.call(&()).unwrap_err());
    assert!(err.downcast_ref::<Validation>().is_some());
    assert_eq!(err.to_string(), "validation: bad input");
    assert_eq!(*openai_calls.lock().unwrap(), 0);
}

#[test]
fn custom_predicate_allows_fallback_on_whitelisted() {
    let chain = FallbackChain::<(), &'static str>::new(vec![
        (
            "a",
            Box::new(|_: &()| -> Result<&'static str, DynError> {
                Err(Box::new(RateLimited("retry me")))
            }) as _,
        ),
        ("b", Box::new(|_: &()| Ok("ok")) as _),
    ])
    .unwrap()
    .with_should_fall_back(|err| err.downcast_ref::<RateLimited>().is_some());
    let result = chain.call(&()).unwrap();
    assert_eq!(result.provider, "b");
}

#[test]
fn the_error_of_the_last_provider_is_judged_too() {
    let chain = FallbackChain::<(), &'static str>::new(vec![
        (
            "a",
            Box::new(|_: &()| -> Result<&'static str, DynError> {
                Err(Box::new(RateLimited("a")))
            }) as _,
        ),
        (
            "b",
            Box::new(|_: &()| -> Result<&'static str, DynError> {
                Err(Box::new(Validation("b")))
            }) as _,
        ),
    ])
    .unwrap()
    .with_should_fall_back(|err| err.downcast_ref::<RateLimited>().is_some());
    let err = raised(chain.call(&()).unwrap_err());
    assert!(err.downcast_ref::<Validation>().is_some());
}

#[test]
fn a_later_predicate_replaces_an_earlier_one() {
    let chain = FallbackChain::<(), &'static str>::new(vec![
        (
            "a",
            Box::new(|_: &()| -> Result<&'static str, DynError> { Err("a".into()) }) as _,
        ),
        ("b", Box::new(|_: &()| Ok("b")) as _),
    ])
    .unwrap()
    .with_should_fall_back(|_| false)
    .with_should_fall_back(|_| true);
    assert_eq!(chain.call(&()).unwrap().provider, "b");
}

// ---------- callback ----------

#[test]
fn on_fallback_callback_fires_for_each_fallback() {
    let calls: Arc<Mutex<Vec<(String, String)>>> = Arc::new(Default::default());
    let cc = calls.clone();
    let chain = FallbackChain::<(), &'static str>::new(vec![
        (
            "a",
            Box::new(|_: &()| -> Result<&'static str, DynError> { Err(Box::new(RateLimited("a"))) })
                as _,
        ),
        (
            "b",
            Box::new(|_: &()| -> Result<&'static str, DynError> { Err(Box::new(RateLimited("b"))) })
                as _,
        ),
        ("c", Box::new(|_: &()| Ok("ok")) as _),
    ])
    .unwrap()
    .with_on_fallback(move |failed, _exc, next| {
        cc.lock()
            .unwrap()
            .push((failed.to_string(), next.to_string()));
    });
    let result = chain.call(&()).unwrap();
    assert_eq!(result.provider, "c");
    let got = calls.lock().unwrap().clone();
    assert_eq!(
        got,
        vec![
            ("a".to_string(), "b".to_string()),
            ("b".to_string(), "c".to_string()),
        ]
    );
}

#[test]
fn on_fallback_fires_before_the_next_provider_is_tried() {
    let log: Arc<Mutex<Vec<String>>> = Arc::new(Default::default());
    let (la, lb, lc) = (log.clone(), log.clone(), log.clone());
    let chain = FallbackChain::<(), &'static str>::new(vec![
        (
            "a",
            Box::new(move |_: &()| -> Result<&'static str, DynError> {
                la.lock().unwrap().push("try a".to_string());
                Err("a".into())
            }) as _,
        ),
        (
            "b",
            Box::new(move |_: &()| -> Result<&'static str, DynError> {
                lb.lock().unwrap().push("try b".to_string());
                Ok("b")
            }) as _,
        ),
    ])
    .unwrap()
    .with_on_fallback(move |f, e, n| {
        lc.lock().unwrap().push(format!("{} failed with {}, next {}", f, e, n));
    });
    chain.call(&()).unwrap();
    assert_eq!(
        *log.lock().unwrap(),
        vec!["try a", "a failed with a, next b", "try b"]
    );
}

#[test]
fn on_fallback_not_called_when_first_succeeds() {
    let calls: Arc<Mutex<Vec<String>>> = Arc::new(Default::default());
    let cc = calls.clone();
    let chain = FallbackChain::<(), &'static str>::new(vec![
        ("a", Box::new(|_: &()| Ok("ok")) as _),
        ("b", Box::new(|_: &()| Ok("x")) as _),
    ])
    .unwrap()
    .with_on_fallback(move |n, _e, _nxt| cc.lock().unwrap().push(n.to_string()));
    chain.call(&()).unwrap();
    assert!(calls.lock().unwrap().is_empty());
}

#[test]
fn on_fallback_not_called_after_last_provider() {
    let calls: Arc<Mutex<Vec<(String, String)>>> = Arc::new(Default::default());
    let cc = calls.clone();
    let chain = FallbackChain::<(), &'static str>::new(vec![
        (
            "a",
            Box::new(|_: &()| -> Result<&'static str, DynError> { Err("a".into()) }) as _,
        ),
        (
            "b",
            Box::new(|_: &()| -> Result<&'static str, DynError> { Err("b".into()) }) as _,
        ),
    ])
    .unwrap()
    .with_on_fallback(move |f, _e, nxt| cc.lock().unwrap().push((f.to_string(), nxt.to_string())));
    let err = chain.call(&()).unwrap_err();
    assert!(matches!(err, ChainError::AllProvidersFailed(_)));
    let got = calls.lock().unwrap().clone();
    assert_eq!(got, vec![("a".to_string(), "b".to_string())]);
}

#[test]
fn on_fallback_not_called_for_an_error_that_is_raised() {
    let calls: Arc<Mutex<Vec<String>>> = Arc::new(Default::default());
    let cc = calls.clone();
    let chain = FallbackChain::<(), &'static str>::new(vec![
        (
            "a",
            Box::new(|_: &()| -> Result<&'static str, DynError> { Err("a".into()) }) as _,
        ),
        ("b", Box::new(|_: &()| Ok("b")) as _),
    ])
    .unwrap()
    .with_should_fall_back(|_| false)
    .with_on_fallback(move |n, _e, _nxt| cc.lock().unwrap().push(n.to_string()));
    assert_eq!(raised(chain.call(&()).unwrap_err()).to_string(), "a");
    assert!(calls.lock().unwrap().is_empty());
}

// ---------- introspection / wiring ----------

#[test]
fn attempt_records_duration() {
    let chain = FallbackChain::<(), &'static str>::new(vec![
        (
            "slow",
            Box::new(|_: &()| -> Result<&'static str, DynError> {
                let start = Instant::now();
                while start.elapsed() < Duration::from_millis(10) {}
                Err(Box::new(RateLimited("slow then fail")))
            }) as _,
        ),
        ("fast", Box::new(|_: &()| Ok("ok")) as _),
    ])
    .unwrap();
    let result = chain.call(&()).unwrap();
    assert!(duration_ms(&result.attempts[0]) >= 5.0);
}

#[test]
fn all_providers_failed_error_message_lists_names() {
    let chain = FallbackChain::<(), &'static str>::new(vec![
        (
            "anthropic",
            Box::new(|_: &()| -> Result<&'static str, DynError> { Err("x".into()) }) as _,
        ),
        (
            "openai",
            Box::new(|_: &()| -> Result<&'static str, DynError> { Err("y".into()) }) as _,
        ),
    ])
    .unwrap();
    let msg = all_failed(chain.call(&()).unwrap_err()).message();
    assert!(msg.contains("anthropic"));
    assert!(msg.contains("openai"));
    assert_eq!(msg, "all providers failed: anthropic, openai");
}

#[test]
fn message_of_few_attempts() {
    let none: AllProvidersFailed<DynError> = AllProvidersFailed { attempts: vec![] };
    assert_eq!(none.message(), "all providers failed: ");
    let one: AllProvidersFailed<DynError> = AllProvidersFailed {
        attempts: vec![Attempt {
            name: "gemini".to_string(),
            error: None,
            duration: Duration::ZERO,
        }],
    };
    assert_eq!(one.message(), "all providers failed: gemini");
}

#[test]
fn chain_is_reusable() {
    let counter = Arc::new(Mutex::new(0));
    let cc = counter.clone();
    let chain = FallbackChain::<(), &'static str>::new(vec![
        (
            "a",
            Box::new(move |_: &()| -> Result<&'static str, DynError> {
                let mut n = cc.lock().unwrap();
                *n += 1;
                if *n == 1 {
                    Err(Box::new(RateLimited("first call only")))
                } else {
                    Ok("a")
                }
            }) as _,
        ),
        ("b", Box::new(|_: &()| Ok("b")) as _),
    ])
    .unwrap();
    let r1 = chain.call(&()).unwrap();
    assert_eq!(r1.provider, "b");
    assert_eq!(r1.attempts.len(), 1);
    let r2 = chain.call(&()).unwrap();
    assert_eq!(r2.provider, "a");
    assert!(r2.attempts.is_empty());
}

// ---------- with_skip ----------

#[test]
fn with_skip_removes_named_provider() {
    let chain = FallbackChain::<(), &'static str>::new(vec![
        ("a", Box::new(|_: &()| Ok("a")) as _),
        ("b", Box::new(|_: &()| Ok("b")) as _),
        ("c", Box::new(|_: &()| Ok("c")) as _),
    ])
    .unwrap()
    .with_skip(|name| name == "b")
    .unwrap();
    assert_eq!(chain.names(), vec!["a", "c"]);
    let result = chain.call(&()).unwrap();
    assert_eq!(result.provider, "a");
}

#[test]
fn with_skip_makes_b_chain_fall_to_c_when_a_fails() {
    let chain = FallbackChain::<(), &'static str>::new(vec![
        (
            "a",
            Box::new(|_: &()| -> Result<&'static str, DynError> { Err("down".into()) }) as _,
        ),
        ("b", Box::new(|_: &()| Ok("b")) as _),
        ("c", Box::new(|_: &()| Ok("c")) as _),
    ])
    .unwrap()
    .with_skip(|name| name == "b")
    .unwrap();
    let result = chain.call(&()).unwrap();
    assert_eq!(result.provider, "c");
    let attempt_names: Vec<&str> = result.attempts.iter().map(|a| a.name.as_str()).collect();
    assert_eq!(attempt_names, vec!["a"]);
}

#[test]
fn with_skip_rejects_when_all_filtered_out() {
    let chain = FallbackChain::<(), &'static str>::new(vec![
        ("a", Box::new(|_: &()| Ok("a")) as _),
        ("b", Box::new(|_: &()| Ok("b")) as _),
    ])
    .unwrap();
    let err = match chain.with_skip(|_| true) {
        Ok(_) => panic!("expected Err"),
        Err(e) => e,
    };
    assert!(err.contains("removed all"));
    assert_eq!(err, "with_skip removed all providers");
}

#[test]
fn with_skip_that_skips_nothing_keeps_the_chain() {
    let chain = FallbackChain::<(), &'static str>::new(vec![
        ("a", Box::new(|_: &()| Ok("a")) as _),
        ("b", Box::new(|_: &()| Ok("b")) as _),
    ])
    .unwrap()
    .with_skip(|_| false)
    .unwrap();
    assert_eq!(chain.names(), vec!["a", "b"]);
}

#[test]
fn with_skip_keeps_the_predicate_and_the_callback() {
    let calls: Arc<Mutex<Vec<(String, String)>>> = Arc::new(Default::default());
    let cc = calls.clone();
    let chain = FallbackChain::<(), &'static str>::new(vec![
        (
            "a",
            Box::new(|_: &()| -> Result<&'static str, DynError> { Err("go on".into()) }) as _,
        ),
        ("b", Box::new(|_: &()| Ok("b")) as _),
        (
            "c",
            Box::new(|_: &()| -> Result<&'static str, DynError> { Err("stop".into()) }) as _,
        ),
        ("d", Box::new(|_: &()| Ok("d")) as _),
    ])
    .unwrap()
    .with_should_fall_back(|err| err.to_string() == "go on")
    .with_on_fallback(move |f, _e, n| cc.lock().unwrap().push((f.to_string(), n.to_string())))
    .with_skip(|name| name == "b")
    .unwrap();
    assert_eq!(raised(chain.call(&()).unwrap_err()).to_string(), "stop");
    assert_eq!(
        *calls.lock().unwrap(),
        vec![("a".to_string(), "c".to_string())]
    );
}

// ---------- error propagation through on_fallback ----------

#[test]
fn on_fallback_sees_error_text() {
    let last_err: Arc<Mutex<Option<String>>> = Arc::new(Default::default());
    let lc = last_err.clone();
    let chain = FallbackChain::<(), &'static str>::new(vec![
        (
            "a",
            Box::new(|_: &()| -> Result<&'static str, DynError> {
                Err(Box::new(RateLimited("a is down")))
            }) as _,
        ),
        ("b", Box::new(|_: &()| Ok("b")) as _),
    ])
    .unwrap()
    .with_on_fallback(move |_f, exc, _nxt| {
        *lc.lock().unwrap() = Some(exc.to_string());
    });
    chain.call(&()).unwrap();
    let got = last_err.lock().unwrap().clone().unwrap();
    assert!(got.contains("a is down"));
}

// ---------- other errors and providers ----------

#[test]
fn providers_and_errors_of_one_plain_type() {
    let chain: FallbackChain<u8, u8, String, _> = FallbackChain::new(vec![
        ("up", halve as fn(&u8) -> Result<u8, String>),
        ("down", double as fn(&u8) -> Result<u8, String>),
    ])
    .unwrap();
    let result = chain.call(&3).unwrap();
    assert_eq!(result.value, 6);
    assert_eq!(result.provider, "down");
    assert_eq!(result.attempts[0].error, Some("odd: 3".to_string()));
    assert_eq!(chain.call(&4).unwrap().value, 2);
}

fn halve(n: &u8) -> Result<u8, String> {
    if n % 2 == 0 {
        Ok(n / 2)
    } else {
        Err(format!("odd: {}", n))
    }
}

fn double(n: &u8) -> Result<u8, String> {
    Ok(n * 2)
}
