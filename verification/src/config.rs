//! Configuration for the client: an optional organization slug and an
//! optional auth token, persisted as JSON in a per-user file, with a
//! read-only INI-style fallback file.
//!
//! File input and output live outside this library; the functions here
//! decide what a load yields from what was found on disk, what a merge
//! keeps, and where the primary file lives.

use vstd::prelude::*;
use crate::ini;
use crate::opt_view;

verus! {

/// The configuration: either field may be absent, which is valid and
/// meaningful, not an error.
#[derive(Debug)]
pub struct Config {
    pub organization: Option<String>,
    pub auth_token: Option<String>,
}

/// Spec view of a configuration: both fields as character sequences.
pub struct ConfigView {
    pub organization: Option<Seq<char>>,
    pub auth_token: Option<Seq<char>>,
}

impl View for Config {
    type V = ConfigView;

    open spec fn view(&self) -> ConfigView {
        ConfigView {
            organization: opt_view(self.organization),
            auth_token: opt_view(self.auth_token),
        }
    }
}

impl Default for Config {
    /// The configuration with both fields absent.
    fn default() -> (c: Config)
        ensures
            c@ == (ConfigView { organization: None, auth_token: None }),
    {
        Config { organization: None, auth_token: None }
    }
}

/// What was found at the primary config file's location: no file, a file
/// that parsed into a configuration, or a file that did not parse (with
/// the parser's message).
pub enum PrimaryConfig {
    Absent,
    Parsed(Config),
    Malformed(String),
}

/// Spec view of `PrimaryConfig`.
pub enum PrimaryView {
    Absent,
    Parsed(ConfigView),
    Malformed(Seq<char>),
}

impl View for PrimaryConfig {
    type V = PrimaryView;

    open spec fn view(&self) -> PrimaryView {
        match self {
            PrimaryConfig::Absent => PrimaryView::Absent,
            PrimaryConfig::Parsed(c) => PrimaryView::Parsed(c@),
            PrimaryConfig::Malformed(m) => PrimaryView::Malformed(m@),
        }
    }
}

/// What loading the configuration yields: a configuration, or failure to
/// parse the primary file.
pub enum LoadOutcome {
    Loaded(ConfigView),
    ParseFailure(Seq<char>),
}

/// The organization and auth token that the fallback file defines.
pub open spec fn ini_config_view(s: Seq<char>) -> ConfigView {
    ConfigView {
        organization: ini::ini_state_of(s).organization,
        auth_token: ini::ini_state_of(s).auth_token,
    }
}

/// What a load yields: the primary file decides alone when it is present
/// (well-formed or not); only in its absence is the fallback file read;
/// with neither file, the empty configuration.
pub open spec fn spec_resolve(primary: PrimaryView, fallback: Option<Seq<char>>) -> LoadOutcome {
    match primary {
        PrimaryView::Parsed(c) => LoadOutcome::Loaded(c),
        PrimaryView::Malformed(m) => LoadOutcome::ParseFailure(m),
        PrimaryView::Absent => match fallback {
            Some(s) => LoadOutcome::Loaded(ini_config_view(s)),
            None => LoadOutcome::Loaded(
                ConfigView { organization: None, auth_token: None },
            ),
        },
    }
}

/// Errors in resolving a usable configuration.
#[derive(Debug)]
pub enum ConfigError {
    /// The primary config file exists but is not valid JSON of the
    /// configuration shape; holds the parser's message.
    PrimaryParse(String),
    /// No organization is configured.
    MissingOrganization,
    /// No auth token is configured.
    MissingAuthToken,
}

impl ConfigError {
    /// A human-readable message for the error, with remediation guidance
    /// where configuration is missing.
    pub fn message(&self) -> (r: String)
        ensures
            self matches ConfigError::PrimaryParse(m) ==> r@ == m@,
            self is MissingOrganization ==> r@ == "Organization not configured. Run 'sentry config -o <org>' first"@,
            self is MissingAuthToken ==> r@ == "Auth token not configured. Run 'sentry config -t <token>' or 'sentry-cli login' first"@,
    {
        match self {
            ConfigError::PrimaryParse(m) => m.clone(),
            ConfigError::MissingOrganization => String::from_str(
                "Organization not configured. Run 'sentry config -o <org>' first",
            ),
            ConfigError::MissingAuthToken => String::from_str(
                "Auth token not configured. Run 'sentry config -t <token>' or 'sentry-cli login' first",
            ),
        }
    }
}

/// Decides what a load of the configuration returns, given what was found
/// in the primary file and the fallback file's text if it exists.
pub fn resolve_config(primary: PrimaryConfig, fallback: Option<&str>) -> (r: Result<
    Config,
    ConfigError,
>)
    ensures
        ({
            let out = spec_resolve(
                primary@,
                match fallback {
                    Some(f) => Some(f@),
                    None => None,
                },
            );
            match r {
                Ok(c) => out == LoadOutcome::Loaded(c@),
                Err(e) => e matches ConfigError::PrimaryParse(m) && out
                    == LoadOutcome::ParseFailure(m@),
            }
        }),
{
    match primary {
        PrimaryConfig::Parsed(c) => Ok(c),
        PrimaryConfig::Malformed(m) => Err(ConfigError::PrimaryParse(m)),
        PrimaryConfig::Absent => match fallback {
            Some(f) => {
                let (org, token) = ini::parse_ini_text(f);
                Ok(Config { organization: org, auth_token: token })
            },
            None => Ok(Config { organization: None, auth_token: None }),
        },
    }
}

/// A present primary file decides the load alone: whatever the fallback
/// file holds, or whether it exists, the outcome is the same.
pub proof fn lemma_primary_shadows_fallback(
    primary: PrimaryView,
    f1: Option<Seq<char>>,
    f2: Option<Seq<char>>,
)
    requires
        !(primary is Absent),
    ensures
        spec_resolve(primary, f1) == spec_resolve(primary, f2),
{
}

/// With neither config file present, loading yields the empty
/// configuration, not an error.
pub proof fn lemma_load_without_files()
    ensures
        spec_resolve(PrimaryView::Absent, None) == LoadOutcome::Loaded(
            ConfigView { organization: None, auth_token: None },
        ),
{
}

/// A merge: a supplied field replaces the loaded one; an omitted field
/// keeps the loaded value.
pub open spec fn spec_merge(
    base: ConfigView,
    org: Option<Seq<char>>,
    token: Option<Seq<char>>,
) -> ConfigView {
    ConfigView {
        organization: if org is Some {
            org
        } else {
            base.organization
        },
        auth_token: if token is Some {
            token
        } else {
            base.auth_token
        },
    }
}

/// Merges command-line updates into a loaded configuration, so that
/// setting only one field does not erase the other before a save.
pub fn merge_config(base: Config, org: Option<String>, token: Option<String>) -> (c: Config)
    ensures
        c@ == spec_merge(base@, opt_view(org), opt_view(token)),
{
    let organization = match org {
        Some(o) => Some(o),
        None => base.organization,
    };
    let auth_token = match token {
        Some(t) => Some(t),
        None => base.auth_token,
    };
    Config { organization, auth_token }
}

/// Saving a configuration merged from only one supplied field preserves
/// the other field's previously loaded value.
pub proof fn lemma_merge_preserves_other_field(base: ConfigView, org: Seq<char>, token: Seq<char>)
    ensures
        spec_merge(base, Some(org), None).auth_token == base.auth_token,
        spec_merge(base, None, Some(token)).organization == base.organization,
{
}

/// Relies on dirs::config_dir: the platform's per-user configuration
/// directory, from the process environment; absent when the platform
/// defines none.
#[verifier::external_body]
fn user_config_dir() -> (r: Option<String>) {
    dirs::config_dir().map(|p| p.to_string_lossy().into_owned())
}

/// Relies on dirs::home_dir: the user's home directory, from the process
/// environment; absent when the platform defines none.
#[verifier::external_body]
fn user_home_dir() -> (r: Option<String>) {
    dirs::home_dir().map(|p| p.to_string_lossy().into_owned())
}

/// The primary config file's path: the tool's own directory and file name
/// under the per-user configuration directory (or the current directory
/// when none is defined).
pub fn config_path() -> (r: String)
    ensures
        exists|base: Seq<char>| r@ == base + "/sentry-cli-rs/config.json"@,
{
    let base = match user_config_dir() {
        Some(b) => b,
        None => String::from_str("."),
    };
    let r = base.concat("/sentry-cli-rs/config.json");
    proof {
        assert(exists|b: Seq<char>| r@ == b + "/sentry-cli-rs/config.json"@) by {
            assert(r@ == base@ + "/sentry-cli-rs/config.json"@);
        }
    }
    r
}

/// The fallback file's path: a fixed dotfile in the home directory (or
/// the current directory when none is defined).
pub fn sentryclirc_path() -> (r: String)
    ensures
        exists|base: Seq<char>| r@ == base + "/.sentryclirc"@,
{
    let base = match user_home_dir() {
        Some(b) => b,
        None => String::from_str("."),
    };
    let r = base.concat("/.sentryclirc");
    proof {
        assert(exists|b: Seq<char>| r@ == b + "/.sentryclirc"@) by {
            assert(r@ == base@ + "/.sentryclirc"@);
        }
    }
    r
}

} // verus!
