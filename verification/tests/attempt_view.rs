use llm_fallback_chain::{Attempt, AttemptView, DynError, FallbackChain};
use serde::ser::{Serialize, SerializeStruct, Serializer};
use std::time::Duration;

#[derive(Debug)]
struct Boom;
impl std::fmt::Display for Boom {
    fn fmt(&self, f: &mut std::fmt::Formatter<'_>) -> std::fmt::Result {
        f.write_str("boom")
    }
}
impl std::error::Error for Boom {}

/// An [`AttemptView`] in JSON, with its duration in milliseconds.
struct Json(AttemptView);
impl Serialize for Json {
    fn serialize<S: Serializer>(&self, serializer: S) -> Result<S::Ok, S::Error> {
        let mut fields = serializer.serialize_struct("AttemptView", 3)?;
        fields.serialize_field("name", &self.0.name)?;
        fields.serialize_field("error", &self.0.error)?;
        fields.serialize_field("duration_ms", &(self.0.duration.as_secs_f64() * 1000.0))?;
        fields.end()
    }
}

#[test]
fn attempt_view_serializes_failed_attempt() {
    let chain = FallbackChain::<(), &'static str>::new(vec![
        (
            "a",
            Box::new(|_: &()| -> Result<&'static str, DynError> { Err(Box::new(Boom)) }) as _,
        ),
        ("b", Box::new(|_: &()| Ok("b")) as _),
    ])
    .unwrap();
    let result = chain.call(&()).unwrap();
    let view: AttemptView = (&result.attempts[0]).into();
    let json = serde_json::to_string(&Json(view)).unwrap();
    assert!(json.contains("\"name\":\"a\""));
    assert!(json.contains("\"error\":\"boom\""));
    assert!(json.contains("\"duration_ms\""));
}

#[test]
fn attempt_view_handles_none_error() {
    let view = AttemptView::from(&Attempt::<DynError> {
        name: "p".to_string(),
        error: None,
        duration: Duration::ZERO,
    });
    let json = serde_json::to_string(&Json(view)).unwrap();
    assert!(json.contains("\"name\":\"p\""));
    assert!(json.contains("\"error\":null"));
}

#[test]
fn attempt_view_keeps_the_duration() {
    let view = AttemptView::from(&Attempt::<&str> {
        name: "p".to_string(),
        error: Some("no quota"),
        duration: Duration::from_micros(1500),
    });
    assert_eq!(view.name, "p");
    assert_eq!(view.error, Some("no quota".to_string()));
    assert_eq!(view.duration, Duration::from_micros(1500));
    let json = serde_json::to_string(&Json(view)).unwrap();
    assert_eq!(json, "{\"name\":\"p\",\"error\":\"no quota\",\"duration_ms\":1.5}");
}
