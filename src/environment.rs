use vstd::prelude::*;

use crate::project_map::str_eq;

verus! {

/// The deployment channel that selects the config file and API host.
#[derive(Debug, Clone, Copy, PartialEq, Eq, Structural)]
pub enum Environment {
    Production,
    Staging,
    Dev,
}

/// The process environment variables this library reads, captured once.
pub struct EnvVars {
    /// The project-scoped token.
    pub railway_token: Option<String>,
    /// The ephemeral API token.
    pub railway_api_token: Option<String>,
    /// The environment selector.
    pub railway_env: Option<String>,
    /// The CI marker.
    pub ci: Option<String>,
}

/// What `str::to_lowercase` makes of a string.
pub uninterp spec fn lower_of(s: Seq<char>) -> Seq<char>;

/// Whether `c` has the Unicode `White_Space` property, as
/// `char::is_whitespace` tests it.
pub open spec fn is_white_space(c: char) -> bool {
    ('\u{9}' <= c && c <= '\u{d}') || c == ' ' || c == '\u{85}' || c == '\u{a0}' || c
        == '\u{1680}' || ('\u{2000}' <= c && c <= '\u{200a}') || c == '\u{2028}' || c
        == '\u{2029}' || c == '\u{202f}' || c == '\u{205f}' || c == '\u{3000}'
}

/// `s` without its leading white space.
pub open spec fn trim_start_spec(s: Seq<char>) -> Seq<char>
    decreases s.len(),
{
    if s.len() > 0 && is_white_space(s[0]) {
        trim_start_spec(s.drop_first())
    } else {
        s
    }
}

/// `s` without its trailing white space.
pub open spec fn trim_end_spec(s: Seq<char>) -> Seq<char>
    decreases s.len(),
{
    if s.len() > 0 && is_white_space(s.last()) {
        trim_end_spec(s.drop_last())
    } else {
        s
    }
}

/// `s` without leading and trailing white space.
pub open spec fn trimmed_of(s: Seq<char>) -> Seq<char> {
    trim_end_spec(trim_start_spec(s))
}

/// Relies on `str::to_lowercase`: the result depends on the characters alone.
#[verifier::external_body]
fn lowercase(s: &str) -> (r: String)
    ensures
        r@ == lower_of(s@),
{
    s.to_lowercase()
}

/// Relies on `str::trim`: it removes the leading and trailing characters
/// for which `char::is_whitespace` holds, the Unicode `White_Space` set.
#[verifier::external_body]
pub(crate) fn trim(s: &str) -> (r: &str)
    ensures
        r@ == trimmed_of(s@),
{
    s.trim()
}

/// The environment that a lower-cased selector names.
pub open spec fn environment_of(lowered: Seq<char>) -> Environment {
    if lowered == "staging"@ {
        Environment::Staging
    } else if lowered == "dev"@ || lowered == "develop"@ {
        Environment::Dev
    } else {
        Environment::Production
    }
}

/// The environment that the selector variable chooses.
pub open spec fn environment_spec(selector: Option<String>) -> Environment {
    match selector {
        Some(v) => environment_of(lower_of(v@)),
        None => Environment::Production,
    }
}

/// The environment named by an already lower-cased selector.
pub fn environment_from_lowered(lowered: &str) -> (r: Environment)
    ensures
        r == environment_of(lowered@),
{
    if str_eq(lowered, "staging") {
        Environment::Staging
    } else if str_eq(lowered, "dev") || str_eq(lowered, "develop") {
        Environment::Dev
    } else {
        Environment::Production
    }
}

/// Whether an already trimmed and lower-cased CI marker reads `true`.
pub fn ci_flag_from_normalized(v: &str) -> (r: bool)
    ensures
        r == (v@ == "true"@),
{
    str_eq(v, "true")
}

/// The fixed API host of each environment.
pub open spec fn host_of(e: Environment) -> Seq<char> {
    match e {
        Environment::Production => "railway.com"@,
        Environment::Staging => "railway-staging.com"@,
        Environment::Dev => "railway-develop.com"@,
    }
}

/// The file name, under the app directory, of each environment's config.
pub open spec fn config_file_name_of(e: Environment) -> Seq<char> {
    match e {
        Environment::Production => "config.json"@,
        Environment::Staging => "config-staging.json"@,
        Environment::Dev => "config-dev.json"@,
    }
}

/// The temporary sibling of each environment's config file.
pub open spec fn temp_file_name_of(e: Environment) -> Seq<char> {
    match e {
        Environment::Production => "config.tmp"@,
        Environment::Staging => "config-staging.tmp"@,
        Environment::Dev => "config-dev.tmp"@,
    }
}

impl Environment {
    /// The API host of this environment.
    pub fn host(&self) -> (r: &'static str)
        ensures
            r@ == host_of(*self),
    {
        match self {
            Environment::Production => "railway.com",
            Environment::Staging => "railway-staging.com",
            Environment::Dev => "railway-develop.com",
        }
    }

    /// The config file name of this environment.
    pub fn config_file_name(&self) -> (r: &'static str)
        ensures
            r@ == config_file_name_of(*self),
    {
        match self {
            Environment::Production => "config.json",
            Environment::Staging => "config-staging.json",
            Environment::Dev => "config-dev.json",
        }
    }

    /// The temporary file name used while writing this environment's config.
    pub fn temp_file_name(&self) -> (r: &'static str)
        ensures
            r@ == temp_file_name_of(*self),
    {
        match self {
            Environment::Production => "config.tmp",
            Environment::Staging => "config-staging.tmp",
            Environment::Dev => "config-dev.tmp",
        }
    }
}

impl EnvVars {
    /// The environment chosen by the selector variable, case-insensitively;
    /// production when it is absent or unrecognised.
    pub fn environment(&self) -> (r: Environment)
        ensures
            r == environment_spec(self.railway_env),
    {
        match &self.railway_env {
            Some(v) => {
                let lowered = lowercase(v.as_str());
                environment_from_lowered(lowered.as_str())
            },
            None => Environment::Production,
        }
    }

    /// Whether the CI marker, trimmed and lower-cased, reads `true`.
    pub fn is_ci(&self) -> (r: bool)
        ensures
            r == match self.ci {
                Some(v) => lower_of(trimmed_of(v@)) == "true"@,
                None => false,
            },
    {
        match &self.ci {
            Some(v) => {
                let t = trim(v.as_str());
                let lowered = lowercase(t);
                ci_flag_from_normalized(lowered.as_str())
            },
            None => false,
        }
    }
}

} // verus!
