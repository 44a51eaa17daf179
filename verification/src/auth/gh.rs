//! The token that the GitHub CLI manages.
use vstd::prelude::*;

use crate::auth::AuthError;
use crate::http::opt_text;
use crate::text;
use crate::text::{lossy_text, trimmed};

verus! {

broadcast use vstd::string::group_string_axioms;

/// Reuses the token managed by the GitHub CLI (`gh auth token`), cached until
/// a 401 triggers a refresh.
#[derive(Debug, Clone)]
pub struct GhToken {
    cached: Option<String>,
}

impl View for GhToken {
    type V = Option<Seq<char>>;

    closed spec fn view(&self) -> Option<Seq<char>> {
        opt_text(self.cached)
    }
}

/// How a run of `gh auth token` went.
#[derive(Debug, Clone)]
pub enum GhRun {
    /// There is no `gh` on this machine.
    NotFound,
    /// `gh` could not be run, for the given reason.
    Failed(String),
    /// `gh` ran, with or without success, and printed the given bytes.
    Exited(bool, Vec<u8>),
}

/// The token that a run gives: what it printed, trimmed.
pub open spec fn token_of(run: GhRun) -> Result<Seq<char>, AuthError> {
    match run {
        GhRun::NotFound => Err(AuthError::GhNotLoggedIn),
        GhRun::Failed(m) => Err(AuthError::Io(m)),
        GhRun::Exited(true, out) => Ok(trimmed(lossy_text(out@))),
        GhRun::Exited(false, _) => Err(AuthError::GhNotLoggedIn),
    }
}

/// The contents of a token, or the error.
pub open spec fn token_view(r: Result<String, AuthError>) -> Result<Seq<char>, AuthError> {
    match r {
        Ok(t) => Ok(t@),
        Err(e) => Err(e),
    }
}

impl GhToken {
    /// A provider that has not asked `gh` yet.
    pub fn new() -> (r: GhToken)
        ensures
            r@ is None,
    {
        GhToken { cached: None }
    }

    /// The name of the provider.
    pub fn name(&self) -> (r: &'static str)
        ensures
            r@ == "gh-token"@,
    {
        "gh-token"
    }

    /// The cached token; when there is none, `gh` is to be run.
    pub fn cached(&self) -> (r: Option<String>)
        ensures
            opt_text(r) == self@,
    {
        self.cached.clone()
    }

    /// Takes the outcome of a run of `gh`. A token is cached.
    pub fn on_run(&mut self, run: GhRun) -> (r: Result<String, AuthError>)
        ensures
            token_view(r) == token_of(run),
            r is Ok <==> (run matches GhRun::Exited(true, _)),
            run matches GhRun::Exited(true, out) ==> (r matches Ok(t) && t@ == trimmed(
                lossy_text(out@),
            ) && final(self)@ == Some(t@)),
            run is NotFound || (run matches GhRun::Exited(false, _)) ==> r == Err::<String, AuthError>(
                AuthError::GhNotLoggedIn,
            ),
            run matches GhRun::Failed(m) ==> r == Err::<String, AuthError>(AuthError::Io(m)),
            r is Err ==> final(self)@ == old(self)@,
            final(self)@ == (match token_of(run) {
                Ok(t) => Some(t),
                Err(_) => old(self)@,
            }),
    {
        match run {
            GhRun::NotFound => Err(AuthError::GhNotLoggedIn),
            GhRun::Failed(m) => Err(AuthError::Io(m)),
            GhRun::Exited(success, out) => {
                if !success {
                    return Err(AuthError::GhNotLoggedIn);
                }
                let printed = text::from_utf8_lossy(out.as_slice());
                Ok(self.on_printed(printed.as_str()))
            },
        }
    }

    /// Takes what a successful run of `gh` printed: the token, which is cached.
    pub fn on_printed(&mut self, printed: &str) -> (r: String)
        ensures
            r@ == trimmed(printed@),
            final(self)@ == Some(trimmed(printed@)),
    {
        let token = text::trim(printed).to_owned();
        self.cached = Some(token.clone());
        token
    }

    /// Drops the cached token, so that `gh` is run again.
    pub fn forget(&mut self)
        ensures
            final(self)@ is None,
    {
        self.cached = None;
    }
}

impl Default for GhToken {
    fn default() -> (r: GhToken)
        ensures
            r@ is None,
    {
        GhToken::new()
    }
}

// ---- laws -----------------------------------------------------------------

/// A token comes from a successful run of `gh` alone: it is what was printed,
/// without the space around it. No `gh`, or one that fails, means that nobody is
/// logged in, and one that cannot be run is an I/O error.
pub proof fn law_token_is_what_gh_prints(out: Vec<u8>, message: String)
    ensures
        token_of(GhRun::Exited(true, out)) == Ok::<Seq<char>, AuthError>(
            trimmed(lossy_text(out@)),
        ),
        token_of(GhRun::Exited(false, out)) == Err::<Seq<char>, AuthError>(
            AuthError::GhNotLoggedIn,
        ),
        token_of(GhRun::NotFound) == Err::<Seq<char>, AuthError>(AuthError::GhNotLoggedIn),
        token_of(GhRun::Failed(message)) == Err::<Seq<char>, AuthError>(AuthError::Io(message)),
{
}

} // verus!
