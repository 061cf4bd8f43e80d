# llm-fallback-chain

Multi-provider failover for LLM calls, verified with Verus. Try provider A; on failure, try B; on B
failure, try C. Stop on the first one that returns `Ok`.

```rust
use llm_fallback_chain::{DynError, FallbackChain};

let chain = FallbackChain::<&str, String>::new(vec![
    ("anthropic", Box::new(|_: &&str| -> Result<String, DynError> {
        Err("rate limited".into())
    }) as _),
    ("openai", Box::new(|p: &&str| -> Result<String, DynError> {
        Ok(format!("o:{}", p))
    }) as _),
])?;

let result = chain.call(&"hello").unwrap();
assert_eq!(result.provider, "openai");
assert_eq!(result.value, "o:hello");
assert_eq!(result.attempts.len(), 1); // anthropic failed before openai won
```

A call fails with `ChainError::Raised`, a provider's own error that does not call for fallback, or
with `ChainError::AllProvidersFailed`, one `Attempt` per provider.

## Layout

- `src/model.rs`: what a chain is and how a call of it may end, as mathematics.
- `src/laws.rs`: what follows for every chain and every call.
- `src/sync_chain.rs`: `FallbackChain`, which calls its providers.
- `src/async_chain.rs`: `AsyncFallbackChain`, which leaves it to its driver to await them.
- `src/roster.rs`: what both are made of. `src/turn.rs`: where a call stands.
- `src/attempt.rs`, `src/text.rs`: what a call reports.
- `src/std_items.rs`: what is assumed of `std`.
- `app/`: boxed errors, provider futures and serialization, unverified.

Nothing is proved of how often a provider or the callback is called; that each is called only when
its turn comes, and with what, is.
