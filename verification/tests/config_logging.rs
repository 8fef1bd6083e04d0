use termaup::config::{default_api_base_url, join, Config, OutputFormat};
use termaup::filter_config::{DueDateFilter, ListFilterConfig, ViewModeConfig};
use termaup::logging::{
    default_level, default_retention_days, generate_request_id, is_expired, redact_emails, redact_log_line,
    LogFormat, LogSessionInfo, LoggingConfig,
};

fn now_nanos() -> u128 {
    std::time::SystemTime::now().duration_since(std::time::UNIX_EPOCH).unwrap().as_nanos()
}

fn session(size: u64, modified_nanos: u128) -> LogSessionInfo {
    LogSessionInfo {
        filename: "test.log".to_string(),
        path: "/tmp/test.log".to_string(),
        binary: "cli".to_string(),
        size,
        modified_nanos,
    }
}

#[test]
fn test_config_default_values() {
    let config = Config::default();
    assert_eq!(config.default_workspace_id, None);
    assert_eq!(config.default_space_id, None);
    assert_eq!(config.api_base_url, "https://api.clickup.com/api/v2");
    assert_eq!(config.output_format, OutputFormat::Table);
}

#[test]
fn test_output_format_default_is_table() {
    assert_eq!(OutputFormat::default(), OutputFormat::Table);
}

#[test]
fn default_api_base_url_is_the_clickup_v2_api() {
    assert_eq!(default_api_base_url(), "https://api.clickup.com/api/v2");
}

#[test]
fn join_adds_one_separator() {
    assert_eq!(join("/home/a/.config", "clickup-rs"), "/home/a/.config/clickup-rs");
    assert_eq!(join("/home/a/.config/", "clickup-rs"), "/home/a/.config/clickup-rs");
    assert_eq!(join("", "x"), "x");
}

#[test]
fn config_paths_end_in_their_file_names() {
    assert!(Config::config_dir().ends_with("clickup-rs"));
    assert!(Config::config_file_path().ends_with("clickup-rs/config.toml"));
    assert!(termaup::filter_config::FilterStore::filters_file_path().ends_with("clickup-rs/filters.toml"));
    assert!(termaup::logging::log_dir().ends_with("clickup-rs/logs"));
    assert!(termaup::auth::TokenStorage::token_file_path().ends_with("clickup-rs/.token"));
}

#[test]
fn test_list_filter_config_default_is_empty() {
    let config = ListFilterConfig::default();
    assert!(config.statuses.is_empty());
    assert!(config.assignees.is_empty());
    assert!(config.priorities.is_empty());
    assert!(config.tags.is_empty());
    assert_eq!(config.due_date_filter, DueDateFilter::All);
    assert!(!config.me_mode);
    assert_eq!(config.view_mode, ViewModeConfig::List);
    assert!(!config.include_closed);
}

#[test]
fn test_logging_config_defaults() {
    let config = LoggingConfig::default();
    assert_eq!(config.retention_days, 7);
    assert_eq!(config.format, LogFormat::Json);
    assert_eq!(config.level, "info");
}

#[test]
fn logging_default_helpers() {
    assert_eq!(default_retention_days(), 7);
    assert_eq!(default_level(), "info");
}

#[test]
fn test_redact_log_line_token() {
    let line = r#"{"token":"pk_12345678_abcdef","msg":"auth"}"#;
    let redacted = redact_log_line(line);
    assert!(redacted.contains("pk_[REDACTED]"));
    assert!(!redacted.contains("pk_12345678_abcdef"));
}

#[test]
fn test_redact_log_line_no_token() {
    let line = r#"{"msg":"hello world"}"#;
    let redacted = redact_log_line(line);
    assert_eq!(redacted, line);
}

#[test]
fn test_redact_emails() {
    let input = "user alice@example.com logged in";
    let result = redact_emails(input);
    assert!(result.contains("a***@example.com"), "got: {result}");
    assert!(!result.contains("alice@example.com"));
}

#[test]
fn test_redact_emails_no_email() {
    let input = "no email here";
    assert_eq!(redact_emails(input), input);
}

#[test]
fn test_redact_emails_at_sign_without_domain() {
    let input = "value @tag";
    assert_eq!(redact_emails(input), input);
}

#[test]
fn redact_emails_keeps_text_after_a_non_ascii_domain() {
    assert_eq!(redact_emails("x@bü.de y"), "x***@bü.de y");
    assert_eq!(redact_emails("mail bob@exämple.org, then more"), "mail b***@exämple.org, then more");
}

#[test]
fn redact_bare_prefix_is_kept() {
    assert_eq!(redact_log_line("key pk_ end"), "key pk_ end");
    assert_eq!(redact_log_line("a pk_x and pk_yy"), "a pk_[REDACTED] and pk_[REDACTED]");
}

#[test]
fn test_generate_request_id_length() {
    let id = generate_request_id();
    assert_eq!(id.len(), 8);
    assert!(id.chars().all(|c| c.is_ascii_hexdigit()));
}

#[test]
fn test_generate_request_id_unique() {
    let id1 = generate_request_id();
    let id2 = generate_request_id();
    assert_ne!(id1, id2);
}

#[test]
fn test_log_session_info_age_string() {
    let info = session(1024, now_nanos() - 3700 * 1_000_000_000);
    let age = info.age_string();
    assert!(age.contains("h ago"), "got: {age}");
}

#[test]
fn age_string_at_each_unit() {
    let info = session(1, 1_000_000_000_000);
    let base = 1_000_000_000_000u128;
    assert_eq!(info.age_string_at(Some(base + 59_999_999_999)), "59s ago");
    assert_eq!(info.age_string_at(Some(base + 60_000_000_000)), "1m ago");
    assert_eq!(info.age_string_at(Some(base + 7_200_000_000_000)), "2h ago");
    assert_eq!(info.age_string_at(Some(base + 3 * 86_400_000_000_000)), "3d ago");
    assert_eq!(info.age_string_at(Some(base - 1)), "unknown");
    assert_eq!(info.age_string_at(None), "unknown");
}

#[test]
fn test_log_session_info_size_string() {
    let info = session(2048, now_nanos());
    assert_eq!(info.size_string(), "2.0 KB");
}

#[test]
fn test_log_session_info_size_string_bytes() {
    let info = session(512, now_nanos());
    assert_eq!(info.size_string(), "512 B");
}

#[test]
fn size_string_matches_float_formatting() {
    for size in [1023u64, 1024, 1075, 1126, 1177, 1536, 1048575, 1048576, 5_000_000, 1_073_741_824,
        9_007_199_254_740_993, u64::MAX] {
        let info = session(size, 0);
        let expected = if size < 1024 {
            format!("{} B", size)
        } else if size < 1024 * 1024 {
            format!("{:.1} KB", size as f64 / 1024.0)
        } else {
            format!("{:.1} MB", size as f64 / (1024.0 * 1024.0))
        };
        assert_eq!(info.size_string(), expected, "size {size}");
    }
}

#[test]
fn session_binary_is_the_name_before_the_first_dash() {
    let s = LogSessionInfo::new("cli-2026-03-25T22-30-00.log".to_string(), "/x".to_string(), 3, 9);
    assert_eq!(s.binary, "cli");
    let t = LogSessionInfo::new("plain.log".to_string(), "/x".to_string(), 3, 9);
    assert_eq!(t.binary, "plain.log");
}

#[test]
fn expiry_uses_the_retention_window() {
    let day: u128 = 86_400_000_000_000;
    let now = 10 * day;
    assert!(is_expired(0, now, 7));
    assert!(!is_expired((9 * 86_400) as u64, now, 7));
    assert!(!is_expired(3 * 86_400, now, 7));
    assert!(is_expired(3 * 86_400 - 1, now, 7));
    assert!(!is_expired(0, 3 * day, 7));
}

#[test]
fn redacting_twice_gives_the_same_line() {
    let lines = [
        "token pk_abc123 for alice@example.com",
        "x@ab@c.com and pk_ and pk_x_y",
        "user@host without dot, bob.smith@mail.example.org",
        "@start a@b.c d",
    ];
    for line in lines {
        let once = redact_log_line(line);
        assert_eq!(redact_log_line(&once), once);
    }
}

#[test]
fn no_token_survives_the_whole_redaction() {
    for line in ["a@pk_x.co", "pk_abc@example.com", "x pk_a_b pk_ pk_9"] {
        let out = redact_log_line(line);
        let cs: Vec<char> = out.chars().collect();
        for q in 0..cs.len().saturating_sub(3) {
            let live = cs[q] == 'p' && cs[q + 1] == 'k' && cs[q + 2] == '_'
                && (cs[q + 3].is_alphanumeric() || cs[q + 3] == '_');
            assert!(!live, "live token in {out:?}");
        }
    }
}
