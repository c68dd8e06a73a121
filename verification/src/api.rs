//! The API client: request paths for the service's endpoints, the
//! authorization header, and classification of an HTTP response into a
//! parsed JSON value or an error.
//!
//! Sending the request is I/O and lives outside this library; everything
//! the request is made of (URL, path, header) and everything decided about
//! the response is computed here.

use vstd::prelude::*;
use crate::config::{Config, ConfigError};

verus! {

/// What `urlencoding::encode` returns for the given characters: its result
/// depends on the input alone.
pub uninterp spec fn url_encoded_of(s: Seq<char>) -> Seq<char>;

/// Relies on urlencoding::encode: percent-encodes every byte of the UTF-8
/// form of `s` except ASCII alphanumerics and `-`, `_`, `.`, `~`; a pure
/// function of its input.
#[verifier::external_body]
fn url_encode(s: &str) -> (r: String)
    ensures
        r@ == url_encoded_of(s@),
{
    urlencoding::encode(s).into_owned()
}

#[verifier::external_type_specification]
#[verifier::external_body]
pub struct ExValue(serde_json::Value);

#[verifier::external_type_specification]
#[verifier::external_body]
pub struct ExJsonError(serde_json::Error);

/// Whether the given characters are a well-formed JSON document, as
/// serde_json's parser decides it.
pub uninterp spec fn json_wf(s: Seq<char>) -> bool;

/// Relies on serde_json::from_str::<Value>: parses the text as JSON,
/// returning Ok exactly on well-formed documents; a pure function of its
/// input.
#[verifier::external_body]
fn parse_json(s: &str) -> (r: Result<serde_json::Value, serde_json::Error>)
    ensures
        (r is Ok) == json_wf(s@),
{
    serde_json::from_str(s)
}

/// The decimal digit `d` as a character.
pub open spec fn digit_char(d: int) -> char {
    if d == 0 {
        '0'
    } else if d == 1 {
        '1'
    } else if d == 2 {
        '2'
    } else if d == 3 {
        '3'
    } else if d == 4 {
        '4'
    } else if d == 5 {
        '5'
    } else if d == 6 {
        '6'
    } else if d == 7 {
        '7'
    } else if d == 8 {
        '8'
    } else {
        '9'
    }
}

/// The decimal digits of `n`, most significant first.
pub open spec fn dec_seq(n: int) -> Seq<char>
    decreases n,
{
    if n < 10 {
        seq![digit_char(n)]
    } else {
        dec_seq(n / 10).push(digit_char(n % 10))
    }
}

fn digit_str(d: u16) -> (r: &'static str)
    requires
        d < 10,
    ensures
        r@ == seq![digit_char(d as int)],
{
    let r: &'static str = match d {
        0 => "0",
        1 => "1",
        2 => "2",
        3 => "3",
        4 => "4",
        5 => "5",
        6 => "6",
        7 => "7",
        8 => "8",
        _ => "9",
    };
    proof {
        reveal_strlit("0");
        reveal_strlit("1");
        reveal_strlit("2");
        reveal_strlit("3");
        reveal_strlit("4");
        reveal_strlit("5");
        reveal_strlit("6");
        reveal_strlit("7");
        reveal_strlit("8");
        reveal_strlit("9");
        assert(r@ =~= seq![digit_char(d as int)]);
    }
    r
}

/// Renders a status code in decimal.
pub fn u16_dec(n: u16) -> (r: String)
    ensures
        r@ == dec_seq(n as int),
    decreases n,
{
    if n < 10 {
        digit_str(n).to_owned()
    } else {
        let mut s = u16_dec(n / 10);
        let d = digit_str(n % 10);
        proof {
            assert(s@ + d@ =~= dec_seq(n as int / 10).push(digit_char(n as int % 10)));
        }
        s.append(d);
        s
    }
}

/// Errors from handling an HTTP response.
#[derive(Debug)]
pub enum ApiError {
    /// The service answered outside the success range; holds the numeric
    /// status and the response body's text.
    Remote { status: u16, body: String },
    /// The service answered in the success range but the body is not
    /// well-formed JSON.
    Decode,
}

impl ApiError {
    /// A human-readable message: the status code and body for a remote
    /// error, a fixed description for a decode error.
    pub fn message(&self) -> (r: String)
        ensures
            self matches ApiError::Remote { status, body } ==> r@ == "HTTP "@ + dec_seq(
                status as int,
            ) + " - "@ + body@,
            self is Decode ==> r@ == "Failed to parse JSON response"@,
    {
        match self {
            ApiError::Remote { status, body } => {
                let code = u16_dec(*status);
                String::from_str("HTTP ").concat(code.as_str()).concat(" - ").concat(body.as_str())
            },
            ApiError::Decode => String::from_str("Failed to parse JSON response"),
        }
    }
}

/// A remote error's message carries its pieces whole: the status digits
/// follow the fixed prefix, and the response body is the suffix.
pub proof fn lemma_remote_message_parts(status: u16, body: Seq<char>)
    ensures
        ({
            let msg = "HTTP "@ + dec_seq(status as int) + " - "@ + body;
            &&& msg.skip(msg.len() - body.len()) == body
            &&& msg.subrange(
                "HTTP "@.len() as int,
                "HTTP "@.len() + dec_seq(status as int).len() as int,
            ) == dec_seq(status as int)
        }),
{
    let msg = "HTTP "@ + dec_seq(status as int) + " - "@ + body;
    assert(msg.skip(msg.len() - body.len()) =~= body);
    assert(msg.subrange(
        "HTTP "@.len() as int,
        "HTTP "@.len() + dec_seq(status as int).len() as int,
    ) =~= dec_seq(status as int));
}

/// Classifies an HTTP response: outside the 2xx range the status and body
/// become a remote error (the body is never parsed); inside it the body
/// is parsed as JSON, and a body that is not well-formed JSON is a decode
/// error, distinct from the remote case.
pub fn handle_response(status: u16, body: String) -> (r: Result<serde_json::Value, ApiError>)
    ensures
        !(200 <= status < 300) ==> r == Err::<serde_json::Value, ApiError>(
            ApiError::Remote { status, body },
        ),
        200 <= status < 300 ==> ((r is Ok) == json_wf(body@)),
        200 <= status < 300 && !json_wf(body@) ==> r == Err::<serde_json::Value, ApiError>(
            ApiError::Decode,
        ),
{
    if !(200 <= status && status < 300) {
        return Err(ApiError::Remote { status, body });
    }
    match parse_json(body.as_str()) {
        Ok(v) => Ok(v),
        Err(_) => Err(ApiError::Decode),
    }
}

/// The query that `list_issues` sends: the caller's, or the default that
/// selects unresolved issues.
pub open spec fn effective_query(query: Option<Seq<char>>) -> Seq<char> {
    match query {
        Some(q) => q,
        None => "is:unresolved"@,
    }
}

/// An immutable bundle of base URL, auth token and organization slug; its
/// methods compute the request path for each endpoint.
pub struct Client {
    pub base_url: String,
    pub auth_token: String,
    pub organization: String,
}

impl Client {
    /// A client for the fixed base URL, holding the organization and
    /// token verbatim.
    pub fn new(organization: &str, auth_token: &str) -> (c: Client)
        ensures
            c.base_url@ == "https://sentry.io/api/0"@,
            c.organization@ == organization@,
            c.auth_token@ == auth_token@,
    {
        Client {
            base_url: String::from_str("https://sentry.io/api/0"),
            auth_token: auth_token.to_owned(),
            organization: organization.to_owned(),
        }
    }

    /// The full URL for an endpoint path: the base URL with the path
    /// appended.
    pub fn request_url(&self, endpoint: &str) -> (r: String)
        ensures
            r@ == self.base_url@ + endpoint@,
    {
        self.base_url.clone().concat(endpoint)
    }

    /// The value sent in the `Authorization` header.
    pub fn auth_header(&self) -> (r: String)
        ensures
            r@ == "Bearer "@ + self.auth_token@,
    {
        String::from_str("Bearer ").concat(self.auth_token.as_str())
    }

    /// Request path for an issue's details.
    pub fn get_issue(&self, issue_id: &str) -> (r: String)
        ensures
            r@ == "/organizations/"@ + self.organization@ + "/issues/"@ + issue_id@ + "/"@,
    {
        String::from_str("/organizations/").concat(self.organization.as_str()).concat(
            "/issues/",
        ).concat(issue_id).concat("/")
    }

    /// Request path for an issue's latest event; the organization is not
    /// interpolated.
    pub fn get_issue_latest_event(&self, issue_id: &str) -> (r: String)
        ensures
            r@ == "/issues/"@ + issue_id@ + "/events/latest/"@,
    {
        String::from_str("/issues/").concat(issue_id).concat("/events/latest/")
    }

    /// Request path for an issue's events; the organization is not
    /// interpolated.
    pub fn get_issue_events(&self, issue_id: &str) -> (r: String)
        ensures
            r@ == "/issues/"@ + issue_id@ + "/events/"@,
    {
        String::from_str("/issues/").concat(issue_id).concat("/events/")
    }

    /// Request path for an issue's hashes; the organization is not
    /// interpolated.
    pub fn get_issue_hashes(&self, issue_id: &str) -> (r: String)
        ensures
            r@ == "/issues/"@ + issue_id@ + "/hashes/"@,
    {
        String::from_str("/issues/").concat(issue_id).concat("/hashes/")
    }

    /// Request path for the organization's project list.
    pub fn list_projects(&self) -> (r: String)
        ensures
            r@ == "/organizations/"@ + self.organization@ + "/projects/"@,
    {
        String::from_str("/organizations/").concat(self.organization.as_str()).concat("/projects/")
    }

    /// Request path for a project's issues, with the query (the caller's,
    /// or the default) percent-encoded into the query string.
    pub fn list_issues(&self, project_slug: &str, query: Option<&str>) -> (r: String)
        ensures
            r@ == "/projects/"@ + self.organization@ + "/"@ + project_slug@ + "/issues/?query="@
                + url_encoded_of(
                effective_query(
                    match query {
                        Some(q) => Some(q@),
                        None => None,
                    },
                ),
            ),
    {
        let q = match query {
            Some(q) => q,
            None => "is:unresolved",
        };
        let enc = url_encode(q);
        String::from_str("/projects/").concat(self.organization.as_str()).concat("/").concat(
            project_slug,
        ).concat("/issues/?query=").concat(enc.as_str())
    }
}

/// Turns a loaded configuration into a client, or the specific error that
/// names what is missing: the organization is checked first, then the
/// token, and a client is returned exactly when both are present — so a
/// missing credential is decided before any request exists to send.
pub fn get_client(cfg: Config) -> (r: Result<Client, ConfigError>)
    ensures
        cfg.organization is None ==> r == Err::<Client, ConfigError>(
            ConfigError::MissingOrganization,
        ),
        cfg.organization is Some && cfg.auth_token is None ==> r == Err::<Client, ConfigError>(
            ConfigError::MissingAuthToken,
        ),
        cfg.organization matches Some(o) ==> cfg.auth_token matches Some(t) ==> r matches Ok(c)
            && c.organization@ == o@ && c.auth_token@ == t@ && c.base_url@
            == "https://sentry.io/api/0"@,
{
    let org = match cfg.organization {
        Some(o) => o,
        None => {
            return Err(ConfigError::MissingOrganization);
        },
    };
    let token = match cfg.auth_token {
        Some(t) => t,
        None => {
            return Err(ConfigError::MissingAuthToken);
        },
    };
    Ok(Client::new(org.as_str(), token.as_str()))
}

} // verus!
