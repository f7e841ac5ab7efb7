use std::cell::RefCell;

use zkteco_bridge::config::{config_from_json_text, ConfigError};
use zkteco_bridge::hrms::{post_with_retry, DeliveryTrace, PostFailure, WebhookPoster};
use zkteco_bridge::json::Json;
use zkteco_bridge::ports::HrmsError;
use zkteco_bridge::services::format_uptime_secs;

struct ScriptedPoster {
    answers: RefCell<Vec<Result<Json, PostFailure>>>,
    posts: RefCell<Vec<(String, String)>>,
    waits: RefCell<Vec<(usize, u64)>>,
}

impl ScriptedPoster {
    fn new(answers: Vec<Result<Json, PostFailure>>) -> Self {
        ScriptedPoster { answers: RefCell::new(answers), posts: RefCell::new(Vec::new()), waits: RefCell::new(Vec::new()) }
    }
}

impl WebhookPoster for ScriptedPoster {
    fn post_once(&self, url: &str, body: &str) -> Result<Json, PostFailure> {
        self.posts.borrow_mut().push((url.to_string(), body.to_string()));
        self.answers.borrow_mut().remove(0)
    }

    fn wait_before_retry(&self, attempt: usize, _message: &str, delay_ms: u64) {
        self.waits.borrow_mut().push((attempt, delay_ms));
    }
}

fn retryable(m: &str) -> Result<Json, PostFailure> {
    Err(PostFailure::Retryable(m.to_string()))
}

#[test]
fn retryable_failures_are_tried_four_times_with_growing_waits() {
    let poster = ScriptedPoster::new(vec![retryable("a"), retryable("b"), retryable("c"), retryable("d")]);
    let r = post_with_retry(&poster, &mut DeliveryTrace::new(), "http://h/w", "{}", 0);
    assert!(matches!(r, Err(HrmsError::Message(ref m)) if m == "d"));
    assert_eq!(poster.posts.borrow().len(), 4);
    assert!(poster.posts.borrow().iter().all(|(u, b)| u == "http://h/w" && b == "{}"));
    assert_eq!(*poster.waits.borrow(), vec![(1, 2000), (2, 4000), (3, 6000)]);
}

#[test]
fn a_fatal_failure_is_not_retried() {
    let poster = ScriptedPoster::new(vec![Err(PostFailure::Fatal("bad request".to_string()))]);
    let r = post_with_retry(&poster, &mut DeliveryTrace::new(), "u", "b", 0);
    assert!(matches!(r, Err(HrmsError::Message(ref m)) if m == "bad request"));
    assert_eq!(poster.posts.borrow().len(), 1);
    assert!(poster.waits.borrow().is_empty());
}

#[test]
fn success_after_a_retry_returns_the_reply() {
    let poster = ScriptedPoster::new(vec![retryable("busy"), Ok(Json::Bool(true))]);
    let r = post_with_retry(&poster, &mut DeliveryTrace::new(), "u", "b", 500);
    assert!(matches!(r, Ok(Json::Bool(true))));
    let waits = poster.waits.borrow();
    assert_eq!(waits.len(), 1);
    assert!(waits[0].0 == 1 && waits[0].1 >= 2000 && waits[0].1 < 2500);
}

#[test]
fn config_text_that_is_not_json_is_invalid_json() {
    assert!(matches!(config_from_json_text("{not json"), Err(ConfigError::InvalidJson(_))));
    assert!(matches!(config_from_json_text("[]"), Err(ConfigError::Invalid(ref m)) if m == "config must be a JSON object"));
}

#[test]
fn negative_uptime_keeps_only_its_seconds() {
    assert_eq!(format_uptime_secs(-5), "-5s");
    assert_eq!(format_uptime_secs(-65), "-5s");
    assert_eq!(format_uptime_secs(-60), "0s");
    assert_eq!(format_uptime_secs(3661), "1h1m");
}
