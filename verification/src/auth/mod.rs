//! Where the GitHub API bearer token comes from.
use vstd::prelude::*;

use crate::config::{provider_text, AuthProvider, Config};
use crate::http::opt_text;

pub mod gh;
pub mod oauth;
pub mod pat;

use gh::GhToken;
use oauth::OAuthDevice;
use pat::ClassicPat;

verus! {

broadcast use vstd::string::group_string_axioms;

/// Why no token could be had.
#[derive(Debug, Clone)]
pub enum AuthError {
    NotConfigured(String),
    GhNotLoggedIn,
    OAuth(String),
    Http(String),
    Io(String),
    Toml(String),
    TomlSer(String),
}

impl AuthError {
    /// The message of the error.
    pub open spec fn text(self) -> Seq<char> {
        match self {
            AuthError::NotConfigured(m) => "no token configured: "@ + m@,
            AuthError::GhNotLoggedIn => "GitHub CLI is not logged in; run `gh auth login`"@,
            AuthError::OAuth(m) => "OAuth device flow failed: "@ + m@,
            AuthError::Http(m) => "HTTP error: "@ + m@,
            AuthError::Io(m) => "I/O error: "@ + m@,
            AuthError::Toml(m) => "TOML parse error: "@ + m@,
            AuthError::TomlSer(m) => "TOML serialize error: "@ + m@,
        }
    }

    /// The message of the error.
    pub fn message(&self) -> (r: String)
        ensures
            r@ == self.text(),
            self matches AuthError::NotConfigured(m) ==> r@ == "no token configured: "@ + m@,
            self is GhNotLoggedIn ==> r@ == "GitHub CLI is not logged in; run `gh auth login`"@,
            self matches AuthError::OAuth(m) ==> r@ == "OAuth device flow failed: "@ + m@,
            self matches AuthError::Http(m) ==> r@ == "HTTP error: "@ + m@,
            self matches AuthError::Io(m) ==> r@ == "I/O error: "@ + m@,
            self matches AuthError::Toml(m) ==> r@ == "TOML parse error: "@ + m@,
            self matches AuthError::TomlSer(m) ==> r@ == "TOML serialize error: "@ + m@,
    {
        match self {
            AuthError::NotConfigured(m) => "no token configured: ".to_owned().concat(m.as_str()),
            AuthError::GhNotLoggedIn => {
                "GitHub CLI is not logged in; run `gh auth login`".to_owned()
            },
            AuthError::OAuth(m) => "OAuth device flow failed: ".to_owned().concat(m.as_str()),
            AuthError::Http(m) => "HTTP error: ".to_owned().concat(m.as_str()),
            AuthError::Io(m) => "I/O error: ".to_owned().concat(m.as_str()),
            AuthError::Toml(m) => "TOML parse error: ".to_owned().concat(m.as_str()),
            AuthError::TomlSer(m) => "TOML serialize error: ".to_owned().concat(m.as_str()),
        }
    }
}

/// Persisted OAuth tokens, with private permissions.
#[derive(Debug, Clone)]
pub struct TokenStore {
    path: String,
}

impl View for TokenStore {
    type V = Seq<char>;

    closed spec fn view(&self) -> Seq<char> {
        self.path@
    }
}

/// A stored token file entry.
#[derive(Debug, Clone)]
pub struct StoredToken {
    pub access_token: String,
    pub scope: Option<String>,
}

impl Default for StoredToken {
    fn default() -> (r: StoredToken)
        ensures
            r.access_token@.len() == 0,
            r.scope is None,
    {
        StoredToken { access_token: String::new(), scope: None }
    }
}

impl TokenStore {
    /// A token store rooted at `path` (e.g. `<data_dir>/auth.toml`).
    pub fn new(path: String) -> (r: TokenStore)
        ensures
            r@ == path@,
    {
        TokenStore { path }
    }

    /// The file that holds the token.
    pub fn path(&self) -> (r: &str)
        ensures
            r@ == self@,
    {
        self.path.as_str()
    }
}

/// A configured token provider.
pub enum Provider {
    Pat(ClassicPat),
    Gh(GhToken),
    OAuth(OAuthDevice),
}

/// The kind of a provider.
pub open spec fn provider_kind(p: Provider) -> AuthProvider {
    match p {
        Provider::Pat(_) => AuthProvider::Pat,
        Provider::Gh(_) => AuthProvider::GhToken,
        Provider::OAuth(_) => AuthProvider::OAuthDevice,
    }
}

impl Provider {
    /// Provider name surfaced in the UI.
    pub fn name(&self) -> (r: &'static str)
        ensures
            r@ == provider_text(provider_kind(*self)),
            self is Pat ==> r@ == "pat"@,
            self is Gh ==> r@ == "gh-token"@,
            self is OAuth ==> r@ == "oauth-device"@,
    {
        match self {
            Provider::Pat(p) => p.name(),
            Provider::Gh(p) => p.name(),
            Provider::OAuth(p) => p.name(),
        }
    }
}

/// Build the configured token provider for `config`. `env_token` is the value
/// of the `GITHUB_TOKEN` environment variable.
pub fn from_config(config: &Config, env_token: Option<String>, store: TokenStore) -> (r: Provider)
    ensures
        provider_kind(r) == config.github.auth_provider,
        r is Pat <==> config.github.auth_provider is Pat,
        r is Gh <==> config.github.auth_provider is GhToken,
        r is OAuth <==> config.github.auth_provider is OAuthDevice,
        r matches Provider::Pat(p) ==> p@ == (if config.github.auth_token@.len() > 0 {
            config.github.auth_token@
        } else {
            match opt_text(env_token) {
                Some(t) => t,
                None => Seq::empty(),
            }
        }),
        r matches Provider::Gh(p) ==> p@ is None,
        r matches Provider::OAuth(p) ==> p.client() == config.github.oauth_client_id@
            && p.token_file() == store@,
{
    match config.github.auth_provider {
        AuthProvider::Pat => Provider::Pat(ClassicPat::new(config.effective_token(env_token))),
        AuthProvider::GhToken => Provider::Gh(GhToken::new()),
        AuthProvider::OAuthDevice => Provider::OAuth(
            OAuthDevice::new(config.github.oauth_client_id.clone(), store),
        ),
    }
}

} // verus!
