//! Configuration decisions, text helpers, and the store's pure rules.

use copilot_desktop::config::{
    cli_candidate_paths, event_timeout_secs, log_level_for, str_eq_icase, verbose_enabled,
    LogLevel, DEFAULT_EVENT_TIMEOUT_SECS,
};
use copilot_desktop::error::AppError;
use copilot_desktop::store::{
    auth_status_from, derive_encryption_key, model_infos_from_pairs, normalize_title,
    settings_from_values, validate_settings, Settings, MAX_SETTING_VALUE_SIZE, MAX_TITLE_LENGTH,
};
use copilot_desktop::text::{parse_u64_dec, str_eq, trim_str, u64_to_dec, u64_to_hex16};

#[test]
fn timeout_parses_valid_overrides_and_falls_back() {
    assert_eq!(event_timeout_secs(None), 120);
    assert_eq!(event_timeout_secs(Some("45")), 45);
    assert_eq!(event_timeout_secs(Some("0")), 0);
    assert_eq!(event_timeout_secs(Some("")), DEFAULT_EVENT_TIMEOUT_SECS);
    assert_eq!(event_timeout_secs(Some("12a")), DEFAULT_EVENT_TIMEOUT_SECS);
    assert_eq!(event_timeout_secs(Some("+45")), 45);
    assert_eq!(event_timeout_secs(Some("-5")), DEFAULT_EVENT_TIMEOUT_SECS);
    assert_eq!(event_timeout_secs(Some("  7")), DEFAULT_EVENT_TIMEOUT_SECS);
    assert_eq!(
        event_timeout_secs(Some("18446744073709551615")),
        u64::MAX
    );
    assert_eq!(
        event_timeout_secs(Some("18446744073709551616")),
        DEFAULT_EVENT_TIMEOUT_SECS
    );
}

#[test]
fn parse_u64_handles_bounds_exactly() {
    assert_eq!(parse_u64_dec("0"), Some(0));
    assert_eq!(parse_u64_dec("00120"), Some(120));
    assert_eq!(parse_u64_dec("18446744073709551615"), Some(u64::MAX));
    assert_eq!(parse_u64_dec("18446744073709551616"), None);
    assert_eq!(parse_u64_dec("99999999999999999999999"), None);
    assert_eq!(parse_u64_dec(""), None);
    assert_eq!(parse_u64_dec("+1"), Some(1));
    assert_eq!(parse_u64_dec("+"), None);
    assert_eq!(parse_u64_dec("++1"), None);
    assert_eq!(parse_u64_dec("1 "), None);
}

#[test]
fn verbose_values_match_case_insensitively() {
    assert!(!verbose_enabled(None));
    assert!(verbose_enabled(Some("1")));
    assert!(verbose_enabled(Some("true")));
    assert!(verbose_enabled(Some("TRUE")));
    assert!(verbose_enabled(Some("Debug")));
    assert!(verbose_enabled(Some("trace")));
    assert!(!verbose_enabled(Some("0")));
    assert!(!verbose_enabled(Some("yes")));
    assert!(!verbose_enabled(Some("")));
}

#[test]
fn log_level_distinguishes_trace_debug_and_info() {
    assert_eq!(log_level_for(None), LogLevel::Info);
    assert_eq!(log_level_for(Some("trace")), LogLevel::Trace);
    assert_eq!(log_level_for(Some("TRACE")), LogLevel::Trace);
    assert_eq!(log_level_for(Some("1")), LogLevel::Debug);
    assert_eq!(log_level_for(Some("true")), LogLevel::Debug);
    assert_eq!(log_level_for(Some("debug")), LogLevel::Debug);
    assert_eq!(log_level_for(Some("quiet")), LogLevel::Info);
}

#[test]
fn cli_candidates_keep_search_order() {
    let fixed = cli_candidate_paths(None);
    assert_eq!(
        fixed,
        vec![
            "/opt/homebrew/bin/copilot",
            "/usr/local/bin/copilot",
            "/usr/bin/copilot",
            "/snap/bin/copilot",
        ]
    );
    let with_home = cli_candidate_paths(Some("/home/me"));
    assert_eq!(with_home.len(), 7);
    assert_eq!(with_home[4], "/home/me/.local/bin/copilot");
    assert_eq!(with_home[5], "/home/me/.cargo/bin/copilot");
    assert_eq!(with_home[6], "/home/me/bin/copilot");
}

#[test]
fn string_helpers_behave_exactly() {
    assert!(str_eq("abc", "abc"));
    assert!(!str_eq("abc", "abd"));
    assert!(!str_eq("abc", "ab"));
    assert!(str_eq_icase("AbC", "aBc"));
    assert!(!str_eq_icase("abc", "abd"));
    assert_eq!(trim_str("  hello  "), "hello");
    assert_eq!(trim_str("hello"), "hello");
    assert_eq!(trim_str("\t\n"), "");
    assert_eq!(trim_str("\u{3000}wide\u{00A0}"), "wide");
    assert_eq!(u64_to_dec(0), "0");
    assert_eq!(u64_to_dec(120), "120");
    assert_eq!(u64_to_dec(u64::MAX), "18446744073709551615");
    assert_eq!(u64_to_hex16(0), "0000000000000000");
    assert_eq!(u64_to_hex16(0xdead_beef), "00000000deadbeef");
    assert_eq!(u64_to_hex16(u64::MAX), "ffffffffffffffff");
}

#[test]
fn settings_assembly_defaults_the_theme() {
    let s = settings_from_values(None, Some("gpt-4o".to_string()), None);
    assert_eq!(s.theme, "dark");
    assert_eq!(s.default_model.as_deref(), Some("gpt-4o"));
    assert!(s.system_prompt.is_none());
    let s = settings_from_values(Some("light".to_string()), None, None);
    assert_eq!(s.theme, "light");
}

#[test]
fn settings_validation_reports_the_first_oversized_value() {
    let ok = Settings {
        theme: "dark".to_string(),
        default_model: Some("gpt-4o".to_string()),
        system_prompt: Some("Be helpful".to_string()),
    };
    assert!(validate_settings(&ok).is_ok());

    let big = "x".repeat(MAX_SETTING_VALUE_SIZE + 1);
    let bad_theme = Settings { theme: big.clone(), default_model: None, system_prompt: None };
    assert_eq!(validate_settings(&bad_theme), Err("Theme value is too large.".to_string()));

    let bad_model = Settings {
        theme: "dark".to_string(),
        default_model: Some(big.clone()),
        system_prompt: None,
    };
    assert_eq!(
        validate_settings(&bad_model),
        Err("Default model value is too large.".to_string())
    );

    let bad_prompt = Settings {
        theme: "dark".to_string(),
        default_model: None,
        system_prompt: Some(big),
    };
    assert_eq!(
        validate_settings(&bad_prompt),
        Err("System prompt value is too large.".to_string())
    );

    // The bound counts encoded bytes, not characters.
    let wide = "é".repeat(MAX_SETTING_VALUE_SIZE / 2) + "é";
    let wide_theme = Settings { theme: wide, default_model: None, system_prompt: None };
    assert_eq!(validate_settings(&wide_theme), Err("Theme value is too large.".to_string()));
}

#[test]
fn titles_are_trimmed_cut_and_rejected_when_empty() {
    assert_eq!(normalize_title(None).unwrap(), "New Chat");
    assert_eq!(normalize_title(Some("  My Chat  ".to_string())).unwrap(), "My Chat");
    let long = "t".repeat(MAX_TITLE_LENGTH + 50);
    let cut = normalize_title(Some(long)).unwrap();
    assert_eq!(cut.chars().count(), MAX_TITLE_LENGTH);
    match normalize_title(Some("   ".to_string())) {
        Err(AppError::Validation(m)) => assert_eq!(m, "Conversation title cannot be empty."),
        other => panic!("expected a validation error, got {:?}", other),
    }
}

#[test]
fn model_records_carry_id_and_name_without_provider() {
    let infos = model_infos_from_pairs(vec![
        ("gpt-4o".to_string(), "GPT-4o".to_string()),
        ("o1".to_string(), "o1".to_string()),
    ]);
    assert_eq!(infos.len(), 2);
    assert_eq!(infos[0].id, "gpt-4o");
    assert_eq!(infos[0].name, "GPT-4o");
    assert!(infos[0].provider.is_none());
    assert_eq!(infos[1].id, "o1");
}

#[test]
fn auth_status_falls_back_to_signed_out() {
    let signed_in = auth_status_from(Some((true, Some("testuser".to_string()))));
    assert!(signed_in.authenticated);
    assert_eq!(signed_in.username.as_deref(), Some("testuser"));
    let failed = auth_status_from(None);
    assert!(!failed.authenticated);
    assert!(failed.username.is_none());
}

#[test]
fn encryption_key_is_deterministic_hex() {
    let key = derive_encryption_key("/tmp/store.db");
    assert_eq!(key.len(), 16);
    assert!(key.chars().all(|c| c.is_ascii_hexdigit()));
    assert_eq!(key, derive_encryption_key("/tmp/store.db"));
    // The key is tied to the file location.
    assert_ne!(key, derive_encryption_key("/tmp/other.db"));
}
