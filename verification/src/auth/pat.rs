//! A classic personal access token.
use vstd::prelude::*;

use crate::auth::AuthError;

verus! {

broadcast use vstd::string::group_string_axioms;

/// A classic personal access token from config or `GITHUB_TOKEN`.
#[derive(Debug, Clone)]
pub struct ClassicPat {
    token: String,
}

impl View for ClassicPat {
    type V = Seq<char>;

    closed spec fn view(&self) -> Seq<char> {
        self.token@
    }
}

/// Whether a result is the configured token, or the error that there is none.
pub open spec fn is_pat_token(token: Seq<char>, r: Result<String, AuthError>) -> bool {
    if token.len() == 0 {
        r matches Err(AuthError::NotConfigured(m)) && m@
            == "set [github] auth_token or the GITHUB_TOKEN environment variable"@
    } else {
        r matches Ok(t) && t@ == token
    }
}

impl ClassicPat {
    /// The provider of the given token.
    pub fn new(token: String) -> (r: ClassicPat)
        ensures
            r@ == token@,
    {
        ClassicPat { token }
    }

    /// The name of the provider.
    pub fn name(&self) -> (r: &'static str)
        ensures
            r@ == "pat"@,
    {
        "pat"
    }

    /// The current bearer token.
    pub fn token(&self) -> (r: Result<String, AuthError>)
        ensures
            is_pat_token(self@, r),
            r is Ok <==> self@.len() > 0,
            r matches Ok(t) ==> t@ == self@,
            r matches Err(e) ==> (e matches AuthError::NotConfigured(m) && m@
                == "set [github] auth_token or the GITHUB_TOKEN environment variable"@),
    {
        if self.token.as_str().unicode_len() == 0 {
            return Err(
                AuthError::NotConfigured(
                    "set [github] auth_token or the GITHUB_TOKEN environment variable".to_owned(),
                ),
            );
        }
        Ok(self.token.clone())
    }

    /// The token after a 401: there is no other.
    pub fn refresh(&self) -> (r: Result<String, AuthError>)
        ensures
            is_pat_token(self@, r),
            r is Ok <==> self@.len() > 0,
            r matches Ok(t) ==> t@ == self@,
            r matches Err(e) ==> (e matches AuthError::NotConfigured(m) && m@
                == "set [github] auth_token or the GITHUB_TOKEN environment variable"@),
    {
        self.token()
    }
}

} // verus!
