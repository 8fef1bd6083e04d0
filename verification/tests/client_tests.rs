use termaup::client::{deserialization_failure, handle_response, rate_limit_headers, ApiErrorBody, ClickUpError};
use termaup::json::{JsonNumber, JsonValue};
use termaup::mentions::resolve_mentions;
use termaup::models::{CommentContentItem, User, WorkspaceMember};
use termaup::pagination::{standard_page, task_query_params, PageCollector, PaginatedResponse};
use termaup::rate_limiter::RateLimiter;

fn obj(members: Vec<(&str, JsonValue)>) -> JsonValue {
    JsonValue::Object(members.into_iter().map(|(k, v)| (k.to_string(), v)).collect())
}

fn member(id: i64, name: &str, email: &str) -> WorkspaceMember {
    WorkspaceMember {
        user: User {
            id,
            username: name.to_string(),
            email: email.to_string(),
            color: None,
            profile_picture: None,
            initials: None,
        },
    }
}

#[test]
fn test_auth_error_display() {
    let err = ClickUpError::AuthError("invalid token".into());
    assert_eq!(err.message(), "Authentication failed: invalid token");
}

#[test]
fn test_api_error_display() {
    let err = ClickUpError::ApiError { status: 400, message: "bad request".into() };
    assert_eq!(err.message(), "API error (status 400): bad request");
}

#[test]
fn test_rate_limited_display() {
    let err = ClickUpError::RateLimited { retry_after_secs: 42 };
    assert_eq!(err.message(), "Rate limited. Retry after 42 seconds");
}

#[test]
fn test_config_error_display() {
    let err = ClickUpError::ConfigError("missing file".into());
    assert_eq!(err.message(), "Configuration error: missing file");
}

#[test]
fn test_not_found_display() {
    let err = ClickUpError::NotFound("task abc123".into());
    assert_eq!(err.message(), "Not found: task abc123");
}

#[test]
fn test_deserialization_error_display() {
    let err = ClickUpError::DeserializationError {
        message: "missing field `id`".into(),
        endpoint: "/api/v2/task/abc".into(),
        body_preview: r#"{"name":"test"}"#.into(),
    };
    assert_eq!(err.message(), "Deserialization error at /api/v2/task/abc: missing field `id`");
}

#[test]
fn test_deserialization_helper_creates_error() {
    let serde_err = serde_json::from_str::<i32>("not a number").unwrap_err();
    let err = ClickUpError::deserialization(serde_err);
    match err {
        ClickUpError::DeserializationError { message, endpoint, body_preview } => {
            assert!(!message.is_empty(), "message should contain serde error");
            assert!(endpoint.is_empty(), "endpoint should be empty");
            assert!(body_preview.is_empty(), "body_preview should be empty");
        }
        other => panic!("expected DeserializationError, got: {other:?}"),
    }
}

#[test]
fn network_error_display() {
    let err = ClickUpError::NetworkError("connection refused".into());
    assert_eq!(err.message(), "Network error: connection refused");
}

#[test]
fn success_statuses_are_ok() {
    assert!(handle_response(200, "{}", None, None, 0).is_ok());
    assert!(handle_response(204, "", None, None, 0).is_ok());
    assert!(handle_response(299, "", None, None, 0).is_ok());
    assert!(handle_response(300, "", None, None, 0).is_err());
}

#[test]
fn test_401_returns_auth_error() {
    let body = ApiErrorBody { err: Some("Token invalid".into()), ecode: Some("OAUTH_025".into()) };
    match handle_response(401, "{}", Some(body), None, 0) {
        Err(ClickUpError::AuthError(m)) => assert_eq!(m, "Token invalid"),
        other => panic!("unexpected {other:?}"),
    }
    match handle_response(401, "not json", None, None, 0) {
        Err(ClickUpError::AuthError(m)) => assert_eq!(m, "unauthorized"),
        other => panic!("unexpected {other:?}"),
    }
}

#[test]
fn test_404_returns_not_found() {
    let body = ApiErrorBody { err: Some("Task not found".into()), ecode: Some("ITEM_015".into()) };
    match handle_response(404, "{}", Some(body), None, 0) {
        Err(ClickUpError::NotFound(m)) => assert_eq!(m, "Task not found"),
        other => panic!("unexpected {other:?}"),
    }
    match handle_response(404, "", None, None, 0) {
        Err(ClickUpError::NotFound(m)) => assert_eq!(m, "resource not found"),
        other => panic!("unexpected {other:?}"),
    }
}

#[test]
fn test_429_returns_rate_limited() {
    match handle_response(429, "", None, Some("1700000060"), 1_700_000_000) {
        Err(ClickUpError::RateLimited { retry_after_secs }) => assert_eq!(retry_after_secs, 60),
        other => panic!("unexpected {other:?}"),
    }
    match handle_response(429, "", None, Some("1700000010"), 1_700_000_000) {
        Err(ClickUpError::RateLimited { retry_after_secs }) => assert_eq!(retry_after_secs, 10),
        other => panic!("unexpected {other:?}"),
    }
    match handle_response(429, "", None, Some("5"), 1_700_000_000) {
        Err(ClickUpError::RateLimited { retry_after_secs }) => assert_eq!(retry_after_secs, 0),
        other => panic!("unexpected {other:?}"),
    }
    match handle_response(429, "", None, None, 1_700_000_000) {
        Err(ClickUpError::RateLimited { retry_after_secs }) => assert_eq!(retry_after_secs, 60),
        other => panic!("unexpected {other:?}"),
    }
}

#[test]
fn test_500_returns_api_error() {
    let body = ApiErrorBody { err: Some("Internal error".into()), ecode: Some("SVR_001".into()) };
    match handle_response(500, "{}", Some(body), None, 0) {
        Err(ClickUpError::ApiError { status, message }) => {
            assert_eq!(status, 500);
            assert_eq!(message, "Internal error (SVR_001)");
        }
        other => panic!("unexpected {other:?}"),
    }
    match handle_response(502, "Bad gateway", None, None, 0) {
        Err(ClickUpError::ApiError { status, message }) => {
            assert_eq!(status, 502);
            assert_eq!(message, "Bad gateway");
        }
        other => panic!("unexpected {other:?}"),
    }
}

#[test]
fn rate_limit_headers_need_both_numbers() {
    assert_eq!(rate_limit_headers(Some("42"), Some("1700000000")), Some((42, 1_700_000_000)));
    assert_eq!(rate_limit_headers(Some("42"), None), None);
    assert_eq!(rate_limit_headers(Some("x"), Some("1")), None);
}

#[test]
fn body_preview_of_a_long_ascii_body() {
    let body = "a".repeat(250);
    match deserialization_failure("bad".into(), "/task", &body) {
        ClickUpError::DeserializationError { message, endpoint, body_preview } => {
            assert_eq!(message, "bad");
            assert_eq!(endpoint, "/task");
            assert_eq!(body_preview, "a".repeat(200));
        }
        other => panic!("unexpected {other:?}"),
    }
    match deserialization_failure("bad".into(), "/x", "short") {
        ClickUpError::DeserializationError { body_preview, .. } => assert_eq!(body_preview, "short"),
        other => panic!("unexpected {other:?}"),
    }
}

#[test]
fn body_preview_keeps_the_first_two_hundred_characters() {
    let body = format!("{}é and more", "a".repeat(199));
    match deserialization_failure("bad".into(), "/task", &body) {
        ClickUpError::DeserializationError { body_preview, .. } => assert_eq!(body_preview, format!("{}é", "a".repeat(199))),
        other => panic!("unexpected {other:?}"),
    }
    let body = "é".repeat(250);
    match deserialization_failure("bad".into(), "/task", &body) {
        ClickUpError::DeserializationError { body_preview, .. } => assert_eq!(body_preview, "é".repeat(200)),
        other => panic!("unexpected {other:?}"),
    }
}

#[test]
fn test_new_limiter_does_not_wait() {
    let limiter = RateLimiter::new(1_000);
    assert_eq!(limiter.remaining(), 100);
    assert_eq!(limiter.wait_time(1_000), None);
}

#[test]
fn test_update_from_headers() {
    let mut limiter = RateLimiter::new(0);
    limiter.update_from_headers(42, 1_700_000_060, 1_700_000_000, 5_000);
    assert_eq!(limiter.remaining(), 42);
    assert_eq!(limiter.wait_time(5_000), None);
}

#[test]
fn test_zero_remaining_with_future_reset_waits() {
    let mut limiter = RateLimiter::new(0);
    limiter.update_from_headers(0, 1_700_000_060, 1_700_000_000, 5_000);
    assert_eq!(limiter.wait_time(5_000), Some(60_000));
    assert_eq!(limiter.wait_time(65_000), None);
    limiter.after_wait();
    assert_eq!(limiter.remaining(), 100);
}

#[test]
fn reset_beyond_the_clock_is_capped() {
    let mut limiter = RateLimiter::new(0);
    limiter.update_from_headers(0, u64::MAX, 0, 5_000);
    assert_eq!(limiter.wait_time(5_000), Some(u64::MAX - 5_000));
    limiter.update_from_headers(0, 10, 0, u64::MAX - 3_000);
    assert_eq!(limiter.wait_time(u64::MAX - 3_000), Some(3_000));
}

#[test]
fn test_zero_remaining_with_past_reset_does_not_wait() {
    let mut limiter = RateLimiter::new(0);
    limiter.update_from_headers(0, 1_000, 1_700_000_000, 5_000);
    assert_eq!(limiter.wait_time(5_000), None);
}

#[test]
fn test_standard_extractor_parses_items() {
    let json = obj(vec![
        ("tasks", JsonValue::Array(vec![obj(vec![("id", JsonValue::Str("a".into()))]), obj(vec![("id", JsonValue::Str("b".into()))])])),
        ("last_page", JsonValue::Bool(false)),
    ]);
    let (last_page, items) = standard_page(&json, "tasks");
    let data = items.and_then(|v| v.as_array()).map(|a| a.len()).unwrap_or(0);
    assert_eq!(data, 2);
    assert!(!last_page);
}

#[test]
fn test_standard_extractor_defaults_to_last_page() {
    let json = obj(vec![("tasks", JsonValue::Array(vec![]))]);
    let (last_page, items) = standard_page(&json, "tasks");
    assert!(items.and_then(|v| v.as_array()).map(|a| a.is_empty()).unwrap_or(true));
    assert!(last_page);
}

#[test]
fn test_standard_extractor_missing_key() {
    let json = obj(vec![("last_page", JsonValue::Bool(true))]);
    let (last_page, items) = standard_page(&json, "tasks");
    assert!(items.is_none());
    assert!(last_page);
}

#[test]
fn collector_gathers_pages_until_the_last() {
    let mut c: PageCollector<u32> = PageCollector::new();
    c.add(PaginatedResponse::new(vec![1, 2], false));
    assert_eq!(c.page, 1);
    assert!(!c.done);
    c.add(PaginatedResponse::new(vec![3], true));
    assert_eq!(c.items, vec![1, 2, 3]);
    assert_eq!(c.page, 1);
    assert!(c.done);
}

#[test]
fn task_query_lists_every_parameter_in_order() {
    let q = task_query_params(Some(2), &vec!["open".to_string()], &vec!["7".to_string(), "8".to_string()], true);
    let pairs: Vec<(&str, &str)> = q.iter().map(|(a, b)| (a.as_str(), b.as_str())).collect();
    assert_eq!(
        pairs,
        vec![
            ("include_timl", "true"),
            ("page", "2"),
            ("statuses[]", "open"),
            ("assignees[]", "7"),
            ("assignees[]", "8"),
            ("include_closed", "true"),
        ]
    );
    let q = task_query_params(None, &vec![], &vec![], false);
    assert_eq!(q, vec![("include_timl".to_string(), "true".to_string())]);
}

#[test]
fn test_resolve_mentions_resolves_matching_members() {
    let members = vec![member(1, "alice", "alice@example.com"), member(2, "bob", "bob@example.com")];
    let result = resolve_mentions("Please review @alice and @bob", &members);
    assert_eq!(result.resolved, vec!["alice", "bob"]);
    assert!(result.unresolved.is_empty());
    let tags: Vec<_> = result.comment_content.iter().filter(|i| matches!(i, CommentContentItem::Tag { .. })).collect();
    assert_eq!(tags.len(), 2);
}

#[test]
fn test_resolve_mentions_email_not_triggered() {
    let result = resolve_mentions("Email user@example.com here", &[member(1, "example", "user@example.com")]);
    assert!(result.resolved.is_empty(), "email @ should not trigger a mention");
    assert!(result.unresolved.is_empty());
}

#[test]
fn test_resolve_mentions_unresolved_emits_plain_text() {
    let result = resolve_mentions("@unknown please help", &[]);
    assert!(result.resolved.is_empty());
    assert_eq!(result.unresolved, vec!["unknown"]);
    assert!(result.comment_content.iter().all(|i| matches!(i, CommentContentItem::Text { .. })));
}

#[test]
fn test_resolve_mentions_no_mentions_returns_single_text_segment() {
    let result = resolve_mentions("Just a plain message", &[]);
    assert!(result.resolved.is_empty());
    assert!(result.unresolved.is_empty());
    assert_eq!(result.comment_content.len(), 1);
    match &result.comment_content[0] {
        CommentContentItem::Text { text, .. } => assert_eq!(text, "Just a plain message"),
        other => panic!("expected Text, got {other:?}"),
    }
}

#[test]
fn test_resolve_mentions_at_start_of_text() {
    let result = resolve_mentions("@carol can you check?", &[member(7, "carol", "carol@example.com")]);
    assert_eq!(result.resolved, vec!["carol"]);
    let first = &result.comment_content[0];
    assert!(matches!(first, CommentContentItem::Tag { .. }), "first item should be tag");
}

#[test]
fn mentions_match_usernames_ignoring_case() {
    let result = resolve_mentions("hi @ALICE!", &[member(1, "alice", "a@x.io")]);
    assert_eq!(result.resolved, vec!["ALICE"]);
    match &result.comment_content[1] {
        CommentContentItem::Tag { user, .. } => assert_eq!(user.id, 1),
        other => panic!("expected Tag, got {other:?}"),
    }
}

#[test]
fn unsigned_numbers_that_fit_read_as_i64() {
    assert_eq!(JsonValue::Number(JsonNumber::UInt(5)).as_i64(), Some(5));
    assert_eq!(JsonValue::Number(JsonNumber::UInt(i64::MAX as u64)).as_i64(), Some(i64::MAX));
    assert_eq!(JsonValue::Number(JsonNumber::UInt(u64::MAX)).as_i64(), None);
    assert_eq!(JsonValue::Number(JsonNumber::Int(-3)).as_i64(), Some(-3));
}
