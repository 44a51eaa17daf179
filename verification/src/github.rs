//! The GitHub REST API: how requests are retried, and what the answers say of
//! the credential and of the rate limit.
use vstd::prelude::*;

use crate::auth::AuthError;
use crate::http::{opt_text, status_line, StatusCode};
use crate::json;
use crate::json::json_member;
use crate::text;
use crate::text::{parsed_number, parts, texts, trimmed};

verus! {

broadcast use vstd::string::group_string_axioms;

/// Base URL for the GitHub REST API.
pub const DEFAULT_BASE: &'static str = "https://api.github.com";

/// The GitHub API version we target.
pub const API_VERSION: &'static str = "2022-11-28";

/// The media type that requests accept.
pub const MEDIA_TYPE: &'static str = "application/vnd.github+json";

/// The name under which requests are made.
pub fn user_agent(version: &str) -> (r: String)
    ensures
        r@ == "github-notifications/"@ + version@,
{
    "github-notifications/".to_owned().concat(version)
}

// ---- errors ---------------------------------------------------------------

/// Why a request failed.
#[derive(Debug, Clone)]
pub enum ClientError {
    Auth(AuthError),
    Http(String),
    Github(StatusCode, String),
}

impl ClientError {
    /// The message of the error.
    pub fn message(&self) -> (r: String)
        ensures
            r@ == match *self {
                ClientError::Auth(e) => "auth: "@ + e.text(),
                ClientError::Http(m) => "HTTP request failed: "@ + m@,
                ClientError::Github(s, m) => "GitHub returned "@ + status_line(s@) + ": "@ + m@,
            },
    {
        match self {
            ClientError::Auth(e) => "auth: ".to_owned().concat(e.message().as_str()),
            ClientError::Http(m) => "HTTP request failed: ".to_owned().concat(m.as_str()),
            ClientError::Github(s, m) => "GitHub returned ".to_owned().concat(
                s.text().as_str(),
            ).concat(": ").concat(m.as_str()),
        }
    }
}

// ---- retrying -------------------------------------------------------------

/// One request, with the number of retries behind it.
#[derive(Debug, Clone, Copy, PartialEq, Eq, Structural)]
pub struct Attempt {
    pub retries: u8,
}

/// What to do with an answer.
#[derive(Debug, Clone, Copy, PartialEq, Eq, Structural)]
pub enum Verdict {
    /// Refresh the token and send the request again.
    RefreshAndRetry,
    /// Hand the answer on.
    Deliver,
}

/// Whether an answer makes the client refresh its token: a first 401.
pub open spec fn is_retried(retries: u8, status: u16) -> bool {
    status == 401 && retries == 0
}

impl Attempt {
    /// The first attempt of a request.
    pub fn first() -> (r: Attempt)
        ensures
            r.retries == 0,
    {
        Attempt { retries: 0 }
    }

    /// The decision on an answer. On a 401 the token provider is refreshed once
    /// and the request retried.
    pub fn on_answer(&mut self, status: StatusCode) -> (r: Verdict)
        ensures
            r == (if is_retried(old(self).retries, status@) {
                Verdict::RefreshAndRetry
            } else {
                Verdict::Deliver
            }),
            final(self).retries == (if is_retried(old(self).retries, status@) {
                1
            } else {
                old(self).retries
            }),
            r is RefreshAndRetry <==> status@ == 401 && old(self).retries == 0,
    {
        if status.as_u16() == 401 && self.retries == 0 {
            self.retries = 1;
            Verdict::RefreshAndRetry
        } else {
            Verdict::Deliver
        }
    }
}

// ---- the credential -------------------------------------------------------

/// Result of credential validation against the GitHub API.
#[derive(Debug, Clone)]
pub struct Validation {
    pub login: Option<String>,
    pub scopes: Vec<String>,
    pub missing: Vec<String>,
    pub sso_hint: Option<String>,
    pub ok: bool,
    pub message: Option<String>,
}

/// Result of credential validation.
pub struct ValidationView {
    pub login: Option<Seq<char>>,
    pub scopes: Seq<Seq<char>>,
    pub missing: Seq<Seq<char>>,
    pub sso_hint: Option<Seq<char>>,
    pub ok: bool,
    pub message: Option<Seq<char>>,
}

impl View for Validation {
    type V = ValidationView;

    open spec fn view(&self) -> ValidationView {
        ValidationView {
            login: opt_text(self.login),
            scopes: texts(self.scopes@),
            missing: texts(self.missing@),
            sso_hint: opt_text(self.sso_hint),
            ok: self.ok,
            message: opt_text(self.message),
        }
    }
}

impl Default for Validation {
    fn default() -> (r: Validation)
        ensures
            r@ == (ValidationView {
                login: None,
                scopes: Seq::empty(),
                missing: Seq::empty(),
                sso_hint: None,
                ok: false,
                message: None,
            }),
    {
        let r = Validation {
            login: None,
            scopes: Vec::new(),
            missing: Vec::new(),
            sso_hint: None,
            ok: false,
            message: None,
        };
        assert(texts(r.scopes@) =~= Seq::empty());
        assert(texts(r.missing@) =~= Seq::empty());
        r
    }
}

/// The scopes that a header lists: its entries, trimmed, without empty ones.
pub open spec fn scopes_in(header: Option<Seq<char>>) -> Seq<Seq<char>> {
    match header {
        Some(raw) => parts(raw, ',').map_values(|s: Seq<char>| trimmed(s)).filter(
            |s: Seq<char>| s.len() > 0,
        ),
        None => Seq::empty(),
    }
}

/// Parse the comma-separated `X-OAuth-Scopes` header into a list.
pub fn parse_scopes(header: &Option<String>) -> (r: Vec<String>)
    ensures
        texts(r@) == scopes_in(opt_text(*header)),
{
    let mut out: Vec<String> = Vec::new();
    assert(texts(out@) =~= Seq::empty());
    let raw = match header {
        Some(h) => h,
        None => return out,
    };
    let entries = text::split(raw.as_str(), ',');
    let ghost cut = parts(raw@, ',');
    let ghost all = cut.map_values(|s: Seq<char>| trimmed(s));
    let ghost pred = |s: Seq<char>| s.len() > 0;
    assert(all.take(0).filter(pred) =~= Seq::empty());
    let mut i: usize = 0;
    while i < entries.len()
        invariant
            i <= entries@.len(),
            texts(entries@) == cut,
            all == cut.map_values(|s: Seq<char>| trimmed(s)),
            pred == (|s: Seq<char>| s.len() > 0),
            texts(out@) == all.take(i as int).filter(pred),
        decreases entries@.len() - i,
    {
        let ghost before = out@;
        let ghost taken = all.take(i as int);
        assert(cut[i as int] == entries@[i as int]@);
        let scope = text::trim(entries[i].as_str());
        proof {
            assert(all[i as int] == scope@);
            assert(all.take(i + 1) =~= taken.push(scope@));
            taken.lemma_filter_push(scope@, pred);
        }
        if scope.unicode_len() > 0 {
            out.push(scope.to_owned());
            assert(texts(out@) =~= texts(before).push(scope@));
        }
        i += 1;
    }
    assert(all.take(all.len() as int) =~= all);
    out
}

/// The scopes that are required but not granted.
pub open spec fn missing_scopes(granted: Seq<Seq<char>>) -> Seq<Seq<char>> {
    seq!["notifications"@, "repo"@].filter(|s: Seq<char>| !granted.contains(s))
}

/// Whether the inbox can be read: it needs either scope, not both.
pub open spec fn has_inbox_scope(granted: Seq<Seq<char>>) -> bool {
    granted.contains("notifications"@) || granted.contains("repo"@)
}

/// What `GET /user` says of the credential, given the login in its body.
pub open spec fn validated(
    status: u16,
    scopes: Seq<Seq<char>>,
    sso: Option<Seq<char>>,
    login: Option<Seq<char>>,
) -> ValidationView {
    if status == 200 {
        let ok = has_inbox_scope(scopes);
        ValidationView {
            login,
            scopes,
            missing: if ok {
                Seq::empty()
            } else {
                missing_scopes(scopes)
            },
            sso_hint: sso,
            ok,
            message: if ok {
                None
            } else {
                Some(
                    "token lacks the `notifications` or `repo` scope; the inbox is unavailable"@,
                )
            },
        }
    } else if status == 403 {
        ValidationView {
            login: None,
            scopes,
            missing: missing_scopes(scopes),
            sso_hint: sso,
            ok: false,
            message: Some("token forbidden; it may need SAML SSO authorization"@),
        }
    } else {
        ValidationView {
            login: None,
            scopes,
            missing: Seq::empty(),
            sso_hint: None,
            ok: false,
            message: Some("unexpected status "@ + status_line(status)),
        }
    }
}

/// The scopes that are required but not granted.
fn missing_from(granted: &Vec<String>) -> (r: Vec<String>)
    ensures
        texts(r@) == missing_scopes(texts(granted@)),
{
    let ghost all = seq!["notifications"@, "repo"@];
    let ghost pred = |s: Seq<char>| !texts(granted@).contains(s);
    let mut out: Vec<String> = Vec::new();
    proof {
        let none = Seq::<Seq<char>>::empty();
        let one = none.push("notifications"@);
        assert(none.filter(pred) =~= none);
        none.lemma_filter_push("notifications"@, pred);
        one.lemma_filter_push("repo"@, pred);
        assert(all =~= one.push("repo"@));
        assert(texts(out@) =~= none);
    }
    if !text::holds(granted, "notifications") {
        let ghost before = out@;
        out.push("notifications".to_owned());
        assert(texts(out@) =~= texts(before).push("notifications"@));
    }
    if !text::holds(granted, "repo") {
        let ghost before = out@;
        out.push("repo".to_owned());
        assert(texts(out@) =~= texts(before).push("repo"@));
    }
    out
}

/// What the answer to `GET /user` says of the credential, given the login in
/// its body: granted scopes (from `X-OAuth-Scopes`), and any missing
/// requirements or SAML SSO hints.
pub fn validation(
    status: StatusCode,
    scopes_header: &Option<String>,
    sso_header: Option<String>,
    login: Option<String>,
) -> (r: Validation)
    ensures
        r@ == validated(
            status@,
            scopes_in(opt_text(*scopes_header)),
            opt_text(sso_header),
            opt_text(login),
        ),
        r.ok <==> status@ == 200 && (r@.scopes.contains("notifications"@) || r@.scopes.contains(
            "repo"@,
        )),
        r.ok ==> r.missing@.len() == 0 && r.message is None,
        opt_text(r.login) == (if status@ == 200 {
            opt_text(login)
        } else {
            None
        }),
        opt_text(r.sso_hint) == (if status@ == 200 || status@ == 403 {
            opt_text(sso_header)
        } else {
            None
        }),
        r@.scopes == scopes_in(opt_text(*scopes_header)),
        status@ != 200 && status@ != 403 ==> r.missing@.len() == 0,
        status@ == 200 && !r.ok ==> opt_text(r.message) == Some(
            "token lacks the `notifications` or `repo` scope; the inbox is unavailable"@,
        ),
        status@ == 403 ==> opt_text(r.message) == Some(
            "token forbidden; it may need SAML SSO authorization"@,
        ),
        status@ != 200 && status@ != 403 ==> opt_text(r.message) == Some(
            "unexpected status "@ + status_line(status@),
        ),
{
    let scopes = parse_scopes(scopes_header);
    let missing = missing_from(&scopes);
    let code = status.as_u16();
    let none: Vec<String> = Vec::new();
    assert(texts(none@) =~= Seq::empty());
    if code == 200 {
        let ok = text::holds(&scopes, "notifications") || text::holds(&scopes, "repo");
        if ok {
            Validation { login, scopes, missing: none, sso_hint: sso_header, ok, message: None }
        } else {
            Validation {
                login,
                scopes,
                missing,
                sso_hint: sso_header,
                ok,
                message: Some(
                    "token lacks the `notifications` or `repo` scope; the inbox is unavailable".to_owned(),
                ),
            }
        }
    } else if code == 403 {
        Validation {
            login: None,
            scopes,
            missing,
            sso_hint: sso_header,
            ok: false,
            message: Some("token forbidden; it may need SAML SSO authorization".to_owned()),
        }
    } else {
        Validation {
            login: None,
            scopes,
            missing: none,
            sso_hint: None,
            ok: false,
            message: Some("unexpected status ".to_owned().concat(status.text().as_str())),
        }
    }
}

/// The login that the body of `GET /user` holds.
pub open spec fn login_in(body: Seq<u8>) -> Option<Seq<char>> {
    match json_member(body, "login"@) {
        Some(m) => m,
        None => None,
    }
}

/// Validate the current credential by the answer to `GET /user`.
pub fn validate(
    status: StatusCode,
    scopes_header: &Option<String>,
    sso_header: Option<String>,
    body: &[u8],
) -> (r: Validation)
    ensures
        r@ == validated(
            status@,
            scopes_in(opt_text(*scopes_header)),
            opt_text(sso_header),
            login_in(body@),
        ),
        opt_text(r.login) == (if status@ == 200 && json_member(body@, "login"@) is Some {
            json_member(body@, "login"@)->0
        } else {
            None
        }),
{
    let login = match json::member(body, "login") {
        Some(m) => m,
        None => None,
    };
    validation(status, scopes_header, sso_header, login)
}

// ---- the rate limit -------------------------------------------------------

/// The rate limit that an answer reports.
#[derive(Debug, Clone, Copy, PartialEq, Eq)]
pub struct RateLimit {
    pub limit: Option<u64>,
    pub remaining: Option<u64>,
    /// When the window starts anew, in seconds since the epoch.
    pub reset: Option<u64>,
}

/// The number that a header holds.
pub open spec fn header_number(header: Option<Seq<char>>) -> Option<nat> {
    match header {
        Some(raw) => parsed_number(raw, u64::MAX as nat),
        None => None,
    }
}

/// An optional machine number as a natural number.
pub open spec fn opt_nat(n: Option<u64>) -> Option<nat> {
    match n {
        Some(v) => Some(v as nat),
        None => None,
    }
}

/// The number that a header holds.
fn read_number(header: &Option<String>) -> (r: Option<u64>)
    ensures
        opt_nat(r) == header_number(opt_text(*header)),
{
    match header {
        Some(raw) => text::parse_number(raw.as_str(), 0xffff_ffff_ffff_ffff),
        None => None,
    }
}

/// The rate limit from the `X-RateLimit-Limit`, `X-RateLimit-Remaining` and
/// `X-RateLimit-Reset` headers.
pub fn rate_limit_from(
    limit: &Option<String>,
    remaining: &Option<String>,
    reset: &Option<String>,
) -> (r: RateLimit)
    ensures
        opt_nat(r.limit) == header_number(opt_text(*limit)),
        opt_nat(r.remaining) == header_number(opt_text(*remaining)),
        opt_nat(r.reset) == header_number(opt_text(*reset)),
{
    RateLimit {
        limit: read_number(limit),
        remaining: read_number(remaining),
        reset: read_number(reset),
    }
}

// ---- laws -----------------------------------------------------------------

/// A request is retried at most once: whatever answers come, the one after a
/// retry is delivered.
pub proof fn law_one_retry_at_most(first: u16, second: u16)
    ensures
        is_retried(0, first) ==> !is_retried(1, second),
{
}

/// A credential is accepted exactly when GitHub answers 200 and grants one of
/// the two scopes that open the inbox; an accepted one lacks nothing.
pub proof fn law_accepted_credential(
    status: u16,
    scopes: Seq<Seq<char>>,
    sso: Option<Seq<char>>,
    login: Option<Seq<char>>,
)
    ensures
        ({
            let v = validated(status, scopes, sso, login);
            &&& v.ok <==> status == 200 && (scopes.contains("notifications"@) || scopes.contains(
                "repo"@,
            ))
            &&& v.ok ==> v.missing.len() == 0 && v.message is None
            &&& !v.ok ==> v.message is Some
        }),
{
}

/// What is missing of a credential that is not accepted: exactly those of the
/// two scopes that it was not granted, when GitHub knows the credential.
pub proof fn law_missing_scopes_are_named(
    status: u16,
    scopes: Seq<Seq<char>>,
    sso: Option<Seq<char>>,
    login: Option<Seq<char>>,
    scope: Seq<char>,
)
    ensures
        ({
            let v = validated(status, scopes, sso, login);
            &&& v.scopes == scopes
            &&& !v.ok && (status == 200 || status == 403) ==> (v.missing.contains(scope) <==> (scope
                == "notifications"@ || scope == "repo"@) && !scopes.contains(scope))
            &&& status != 200 && status != 403 ==> v.missing.len() == 0 && v.message == Some(
                "unexpected status "@ + status_line(status),
            )
            &&& status == 200 ==> v.login == login && v.sso_hint == sso
            &&& status == 403 ==> v.login is None && v.sso_hint == sso && v.message == Some(
                "token forbidden; it may need SAML SSO authorization"@,
            )
            &&& status == 200 && !v.ok ==> v.message == Some(
                "token lacks the `notifications` or `repo` scope; the inbox is unavailable"@,
            )
            &&& status != 200 ==> v.login is None
        }),
{
    let all = seq!["notifications"@, "repo"@];
    let pred = |s: Seq<char>| !scopes.contains(s);
    let left = missing_scopes(scopes);
    if left.contains(scope) {
        let i = choose|i: int| 0 <= i < left.len() && left[i] == scope;
        all.lemma_filter_pred(pred, i);
        all.lemma_filter_contains_rev(pred, scope);
        let k = choose|k: int| 0 <= k < all.len() && all[k] == scope;
        assert(k == 0 || k == 1);
    }
    if scope == "notifications"@ && !scopes.contains(scope) {
        assert(all[0] == scope);
        all.lemma_filter_contains(pred, 0);
    }
    if scope == "repo"@ && !scopes.contains(scope) {
        assert(all[1] == scope);
        all.lemma_filter_contains(pred, 1);
    }
}

/// A scope is granted exactly when one of the entries of the header, without the
/// space around it, names it; entries that name nothing are passed over.
pub proof fn law_scopes_are_the_header_entries(header: Seq<char>, scope: Seq<char>)
    ensures
        scopes_in(None).len() == 0,
        scopes_in(Some(header)).contains(scope) <==> scope.len() > 0 && exists|i: int|
            0 <= i < parts(header, ',').len() && trimmed(#[trigger] parts(header, ',')[i]) == scope,
{
    let cut = parts(header, ',');
    let all = cut.map_values(|s: Seq<char>| trimmed(s));
    let pred = |s: Seq<char>| s.len() > 0;
    let left = scopes_in(Some(header));
    if left.contains(scope) {
        let i = choose|i: int| 0 <= i < left.len() && left[i] == scope;
        all.lemma_filter_pred(pred, i);
        all.lemma_filter_contains_rev(pred, scope);
        let k = choose|k: int| 0 <= k < all.len() && all[k] == scope;
        assert(trimmed(cut[k]) == scope);
    }
    if scope.len() > 0 && exists|i: int| 0 <= i < cut.len() && trimmed(#[trigger] cut[i]) == scope {
        let k = choose|k: int| 0 <= k < cut.len() && trimmed(#[trigger] cut[k]) == scope;
        assert(all[k] == scope);
        all.lemma_filter_contains(pred, k);
    }
}

/// A request is sent again exactly after a first answer of 401.
pub proof fn law_only_a_first_401_is_retried(retries: u8, status: u16)
    ensures
        is_retried(retries, status) <==> status == 401 && retries == 0,
{
}

/// The rate limit is what the headers hold.
pub proof fn law_header_numbers_are_read(n: nat)
    requires
        n <= u64::MAX,
    ensures
        header_number(Some(text::decimal(n))) == Some(n),
        header_number(None) is None,
{
    text::law_numbers_read_back(n, u64::MAX as nat);
}

} // verus!
