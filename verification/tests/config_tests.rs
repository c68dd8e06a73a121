use sentry_cli::config::{
    config_path, merge_config, resolve_config, sentryclirc_path, Config, ConfigError,
    PrimaryConfig,
};
use sentry_cli::ini::parse_ini_text;

fn cfg(org: Option<&str>, token: Option<&str>) -> Config {
    Config {
        organization: org.map(|s| s.to_string()),
        auth_token: token.map(|s| s.to_string()),
    }
}

#[test]
fn ini_basic_sections() {
    let (org, token) = parse_ini_text("[auth]\ntoken=abc\n[defaults]\norg=xyz");
    assert_eq!(org, Some("xyz".to_string()));
    assert_eq!(token, Some("abc".to_string()));
}

#[test]
fn ini_spaces_around_equals() {
    let (org, token) = parse_ini_text("[auth]\ntoken = abc\n[defaults]\norg = xyz");
    assert_eq!(org, Some("xyz".to_string()));
    assert_eq!(token, Some("abc".to_string()));
}

#[test]
fn ini_extra_whitespace_everywhere() {
    let (org, token) = parse_ini_text("  [auth]  \r\n  token   =   abc  \r\n[defaults]\n\torg=xyz\t");
    assert_eq!(org, Some("xyz".to_string()));
    assert_eq!(token, Some("abc".to_string()));
}

#[test]
fn ini_keys_outside_section_ignored() {
    let (org, token) = parse_ini_text("token=abc\norg=xyz");
    assert_eq!(org, None);
    assert_eq!(token, None);
}

#[test]
fn ini_keys_in_wrong_section_ignored() {
    let (org, token) = parse_ini_text("[auth]\norg=xyz\n[defaults]\ntoken=abc");
    assert_eq!(org, None);
    assert_eq!(token, None);
}

#[test]
fn ini_unknown_section_deactivates() {
    let (org, token) = parse_ini_text("[auth]\ntoken=abc\n[other]\ntoken=later\norg=nope");
    assert_eq!(org, None);
    assert_eq!(token, Some("abc".to_string()));
}

#[test]
fn ini_line_without_equals_ignored() {
    let (org, token) = parse_ini_text("[auth]\ntoken\n[defaults]\norg=xyz");
    assert_eq!(org, Some("xyz".to_string()));
    assert_eq!(token, None);
}

#[test]
fn ini_value_keeps_first_equals_split() {
    let (_org, token) = parse_ini_text("[auth]\ntoken=a=b=c");
    assert_eq!(token, Some("a=b=c".to_string()));
}

#[test]
fn ini_later_value_wins() {
    let (_org, token) = parse_ini_text("[auth]\ntoken=one\ntoken=two");
    assert_eq!(token, Some("two".to_string()));
}

#[test]
fn ini_empty_input() {
    let (org, token) = parse_ini_text("");
    assert_eq!(org, None);
    assert_eq!(token, None);
}

#[test]
fn resolve_neither_file_is_empty_config() {
    let r = resolve_config(PrimaryConfig::Absent, None);
    match r {
        Ok(c) => {
            assert_eq!(c.organization, None);
            assert_eq!(c.auth_token, None);
        }
        Err(_) => panic!("expected an empty configuration, not an error"),
    }
}

#[test]
fn resolve_primary_wins_over_fallback() {
    let primary = PrimaryConfig::Parsed(cfg(Some("primary-org"), Some("primary-token")));
    let r = resolve_config(primary, Some("[auth]\ntoken=fb\n[defaults]\norg=fb"));
    let c = r.unwrap();
    assert_eq!(c.organization, Some("primary-org".to_string()));
    assert_eq!(c.auth_token, Some("primary-token".to_string()));
}

#[test]
fn resolve_malformed_primary_is_error_despite_fallback() {
    let r = resolve_config(
        PrimaryConfig::Malformed("expected value at line 1".to_string()),
        Some("[defaults]\norg=fb"),
    );
    match r {
        Ok(_) => panic!("a malformed primary file must not fall back"),
        Err(e) => {
            assert!(matches!(e, ConfigError::PrimaryParse(_)));
            assert_eq!(e.message(), "expected value at line 1");
        }
    }
}

#[test]
fn resolve_absent_primary_uses_fallback() {
    let r = resolve_config(PrimaryConfig::Absent, Some("[auth]\ntoken=abc\n[defaults]\norg=xyz"));
    let c = r.unwrap();
    assert_eq!(c.organization, Some("xyz".to_string()));
    assert_eq!(c.auth_token, Some("abc".to_string()));
}

#[test]
fn merge_only_org_preserves_token() {
    let c = merge_config(cfg(Some("old-org"), Some("old-token")), Some("new-org".to_string()), None);
    assert_eq!(c.organization, Some("new-org".to_string()));
    assert_eq!(c.auth_token, Some("old-token".to_string()));
}

#[test]
fn merge_only_token_preserves_org() {
    let c = merge_config(cfg(Some("old-org"), Some("old-token")), None, Some("new-token".to_string()));
    assert_eq!(c.organization, Some("old-org".to_string()));
    assert_eq!(c.auth_token, Some("new-token".to_string()));
}

#[test]
fn merge_nothing_changes_nothing() {
    let c = merge_config(cfg(Some("org"), None), None, None);
    assert_eq!(c.organization, Some("org".to_string()));
    assert_eq!(c.auth_token, None);
}

#[test]
fn missing_config_messages_name_the_remedy() {
    assert_eq!(
        ConfigError::MissingOrganization.message(),
        "Organization not configured. Run 'sentry config -o <org>' first"
    );
    assert_eq!(
        ConfigError::MissingAuthToken.message(),
        "Auth token not configured. Run 'sentry config -t <token>' or 'sentry-cli login' first"
    );
}

#[test]
fn default_config_is_empty() {
    let c = Config::default();
    assert_eq!(c.organization, None);
    assert_eq!(c.auth_token, None);
}

#[test]
fn config_paths_have_fixed_tails() {
    assert!(config_path().ends_with("/sentry-cli-rs/config.json"));
    assert!(sentryclirc_path().ends_with("/.sentryclirc"));
}
