use sentry_cli::api::{get_client, handle_response, u16_dec, ApiError, Client};
use sentry_cli::config::{Config, ConfigError};

fn client() -> Client {
    Client::new("acme", "tkn")
}

#[test]
fn new_stores_fields_verbatim() {
    let c = client();
    assert_eq!(c.base_url, "https://sentry.io/api/0");
    assert_eq!(c.organization, "acme");
    assert_eq!(c.auth_token, "tkn");
}

#[test]
fn issue_path_interpolates_organization() {
    assert_eq!(client().get_issue("42"), "/organizations/acme/issues/42/");
}

#[test]
fn issue_events_path_has_no_organization() {
    assert_eq!(client().get_issue_events("42"), "/issues/42/events/");
}

#[test]
fn issue_latest_event_path() {
    assert_eq!(client().get_issue_latest_event("42"), "/issues/42/events/latest/");
}

#[test]
fn issue_hashes_path() {
    assert_eq!(client().get_issue_hashes("42"), "/issues/42/hashes/");
}

#[test]
fn projects_path() {
    assert_eq!(client().list_projects(), "/organizations/acme/projects/");
}

#[test]
fn issues_path_default_query_is_encoded() {
    assert_eq!(
        client().list_issues("proj", None),
        "/projects/acme/proj/issues/?query=is%3Aunresolved"
    );
}

#[test]
fn issues_path_encodes_supplied_query() {
    assert_eq!(
        client().list_issues("proj", Some("is:unresolved browser:firefox")),
        "/projects/acme/proj/issues/?query=is%3Aunresolved%20browser%3Afirefox"
    );
}

#[test]
fn request_url_appends_to_base() {
    assert_eq!(
        client().request_url("/issues/42/events/"),
        "https://sentry.io/api/0/issues/42/events/"
    );
}

#[test]
fn auth_header_is_bearer_token() {
    assert_eq!(client().auth_header(), "Bearer tkn");
}

#[test]
fn non_success_status_reports_status_and_body() {
    let r = handle_response(404, "{\"detail\":\"not found\"}".to_string());
    match r {
        Ok(_) => panic!("a 404 must not be a success"),
        Err(e) => {
            assert!(matches!(e, ApiError::Remote { status: 404, .. }));
            let msg = e.message();
            assert!(msg.contains("404"));
            assert!(msg.contains("{\"detail\":\"not found\"}"));
            assert_eq!(msg, "HTTP 404 - {\"detail\":\"not found\"}");
        }
    }
}

#[test]
fn success_status_with_valid_json_parses() {
    let r = handle_response(200, "{\"id\":\"42\",\"title\":\"boom\"}".to_string());
    let v = r.unwrap_or_else(|_| panic!("a 2xx with valid JSON must parse"));
    let expected: serde_json::Value =
        serde_json::from_str("{\"id\":\"42\",\"title\":\"boom\"}").unwrap();
    assert_eq!(v, expected);
}

#[test]
fn success_status_with_truncated_json_is_decode_error() {
    let r = handle_response(200, "{\"detail\":".to_string());
    match r {
        Ok(_) => panic!("truncated JSON must not parse"),
        Err(e) => {
            assert!(matches!(e, ApiError::Decode));
            assert_eq!(e.message(), "Failed to parse JSON response");
        }
    }
}

#[test]
fn decode_error_is_distinct_from_remote_error() {
    let decode = handle_response(200, "not json".to_string());
    let remote = handle_response(500, "not json".to_string());
    assert!(matches!(decode, Err(ApiError::Decode)));
    assert!(matches!(remote, Err(ApiError::Remote { status: 500, .. })));
}

#[test]
fn status_edges_of_success_range() {
    assert!(handle_response(200, "1".to_string()).is_ok());
    assert!(handle_response(299, "1".to_string()).is_ok());
    assert!(matches!(handle_response(199, "1".to_string()), Err(ApiError::Remote { status: 199, .. })));
    assert!(matches!(handle_response(300, "1".to_string()), Err(ApiError::Remote { status: 300, .. })));
}

#[test]
fn u16_dec_renders_decimal() {
    assert_eq!(u16_dec(0), "0");
    assert_eq!(u16_dec(7), "7");
    assert_eq!(u16_dec(404), "404");
    assert_eq!(u16_dec(65535), "65535");
}

#[test]
fn get_client_requires_organization_first() {
    let r = get_client(Config { organization: None, auth_token: Some("tkn".to_string()) });
    assert!(matches!(r, Err(ConfigError::MissingOrganization)));
    let r = get_client(Config { organization: None, auth_token: None });
    assert!(matches!(r, Err(ConfigError::MissingOrganization)));
}

#[test]
fn get_client_requires_token() {
    let r = get_client(Config { organization: Some("acme".to_string()), auth_token: None });
    assert!(matches!(r, Err(ConfigError::MissingAuthToken)));
}

#[test]
fn get_client_with_full_config_builds_client() {
    let r = get_client(Config {
        organization: Some("acme".to_string()),
        auth_token: Some("tkn".to_string()),
    });
    match r {
        Ok(c) => {
            assert_eq!(c.organization, "acme");
            assert_eq!(c.auth_token, "tkn");
            assert_eq!(c.base_url, "https://sentry.io/api/0");
        }
        Err(_) => panic!("a full configuration must yield a client"),
    }
}
