//! The OAuth device flow: the user authorizes in a browser while the app polls
//! for the token.
use vstd::prelude::*;

use crate::auth::{AuthError, StoredToken, TokenStore};
use crate::http::{opt_text, pair_texts};
use crate::json;
use crate::json::json_member;
use crate::text;
use crate::text::debug_text;

verus! {

broadcast use vstd::string::group_string_axioms;

/// Base URL of the authorization server.
pub const DEFAULT_BASE: &'static str = "https://github.com";

/// The grant type of the device flow.
pub const GRANT_TYPE: &'static str = "urn:ietf:params:oauth:grant-type:device_code";

/// OAuth device flow provider. Obtains a user access token by asking the user
/// to authorize in a browser, then persists the token in a `TokenStore`.
#[derive(Debug, Clone)]
pub struct OAuthDevice {
    client_id: String,
    store: TokenStore,
}

/// What has to be done to get a token.
#[derive(Debug, Clone)]
pub enum Start {
    /// The stored token is used.
    Stored(String),
    /// The flow is run, and its token stored.
    RunFlow,
    Fail(AuthError),
}

/// Whether a decision is the one to take for a stored token and a client id: a
/// stored token is used, and without a client id no flow can be run.
pub open spec fn is_start(stored: Option<Seq<char>>, client_id: Seq<char>, r: Start) -> bool {
    if stored matches Some(t) && t.len() > 0 {
        r matches Start::Stored(t) && Some(t@) == stored
    } else if client_id.len() == 0 {
        r matches Start::Fail(AuthError::NotConfigured(m)) && m@ == "set [github] oauth_client_id"@
    } else {
        r is RunFlow
    }
}

/// The access token of a stored entry.
pub open spec fn stored_text(stored: Option<StoredToken>) -> Option<Seq<char>> {
    match stored {
        Some(s) => Some(s.access_token@),
        None => None,
    }
}

impl OAuthDevice {
    /// The client id of the OAuth app.
    pub closed spec fn client(&self) -> Seq<char> {
        self.client_id@
    }

    /// The file that holds the token.
    pub closed spec fn token_file(&self) -> Seq<char> {
        self.store@
    }

    /// The provider for an OAuth app, with its token store.
    pub fn new(client_id: String, store: TokenStore) -> (r: OAuthDevice)
        ensures
            r.client() == client_id@,
            r.token_file() == store@,
    {
        OAuthDevice { client_id, store }
    }

    /// The name of the provider.
    pub fn name(&self) -> (r: &'static str)
        ensures
            r@ == "oauth-device"@,
    {
        "oauth-device"
    }

    /// The client id of the OAuth app.
    pub fn client_id(&self) -> (r: &str)
        ensures
            r@ == self.client(),
    {
        self.client_id.as_str()
    }

    /// The file that holds the token.
    pub fn store_path(&self) -> (r: &str)
        ensures
            r@ == self.token_file(),
    {
        self.store.path()
    }

    /// What has to be done to get a token, given the stored entry.
    pub fn start(&self, stored: Option<StoredToken>) -> (r: Start)
        ensures
            is_start(stored_text(stored), self.client(), r),
            r is Stored <==> (stored matches Some(s) && s.access_token@.len() > 0),
            r matches Start::Stored(t) ==> stored is Some && t@ == (stored->0).access_token@,
            r is RunFlow <==> !(stored matches Some(s) && s.access_token@.len() > 0)
                && self.client().len() > 0,
            r matches Start::Fail(e) ==> (e matches AuthError::NotConfigured(m) && m@
                == "set [github] oauth_client_id"@),
    {
        if let Some(s) = stored {
            if s.access_token.as_str().unicode_len() > 0 {
                return Start::Stored(s.access_token);
            }
        }
        if self.client_id.as_str().unicode_len() == 0 {
            return Start::Fail(
                AuthError::NotConfigured("set [github] oauth_client_id".to_owned()),
            );
        }
        Start::RunFlow
    }

    /// What has to be done to get a token after the stored one was rejected: it
    /// is dropped, and the user is asked again.
    pub fn restart(&self) -> (r: Start)
        ensures
            is_start(None, self.client(), r),
            r is RunFlow <==> self.client().len() > 0,
            r is Fail <==> self.client().len() == 0,
    {
        self.start(None)
    }

    /// The entry under which the token of a flow is stored.
    pub fn entry(token: &str) -> (r: StoredToken)
        ensures
            r.access_token@ == token@,
            r.scope is None,
    {
        StoredToken { access_token: token.to_owned(), scope: None }
    }

    /// The form of the first request, for a device code. It names the scopes that
    /// the user is asked to grant.
    pub fn code_form(&self) -> (r: Vec<(String, String)>)
        ensures
            pair_texts(r@) == seq![
                ("client_id"@, self.client()),
                ("scope"@, "notifications repo read:org"@),
            ],
    {
        let mut form: Vec<(String, String)> = Vec::new();
        form.push(("client_id".to_owned(), self.client_id.clone()));
        form.push(("scope".to_owned(), "notifications repo read:org".to_owned()));
        assert(pair_texts(form@) =~= seq![
            ("client_id"@, self.client()),
            ("scope"@, "notifications repo read:org"@),
        ]);
        form
    }
}

/// The authorization server's answer to the request for a device code.
#[derive(Debug, Clone)]
pub struct DeviceCode {
    pub device_code: String,
    pub user_code: String,
    pub verification_uri: String,
    pub interval: u64,
}

/// A running device flow.
#[derive(Debug)]
pub struct DeviceFlow {
    client_id: String,
    device: DeviceCode,
    interval: u64,
}

/// The state of a device flow.
pub struct DeviceFlowView {
    pub client_id: Seq<char>,
    pub device_code: Seq<char>,
    /// How long to wait before the next poll, in seconds.
    pub interval: u64,
}

impl View for DeviceFlow {
    type V = DeviceFlowView;

    closed spec fn view(&self) -> DeviceFlowView {
        DeviceFlowView {
            client_id: self.client_id@,
            device_code: self.device.device_code@,
            interval: self.interval,
        }
    }
}

/// What follows a poll.
#[derive(Debug, Clone)]
pub enum PollStep {
    /// The token has arrived.
    Token(String),
    /// Poll again after the interval.
    Wait,
    Fail(AuthError),
}

/// What follows a poll.
pub enum PollStepView {
    Token(Seq<char>),
    Wait,
    /// The device flow failed, for the given reason.
    Fail(Seq<char>),
}

/// Whether a step is the given one; failures are those of the device flow.
pub open spec fn is_step(step: PollStep, view: PollStepView) -> bool {
    match view {
        PollStepView::Token(t) => step matches PollStep::Token(s) && s@ == t,
        PollStepView::Wait => step is Wait,
        PollStepView::Fail(m) => step matches PollStep::Fail(AuthError::OAuth(s)) && s@ == m,
    }
}

/// What follows a poll whose answer holds the given token and error.
pub open spec fn poll_step(token: Option<Seq<char>>, error: Option<Seq<char>>) -> PollStepView {
    match (token, error) {
        (Some(t), _) => PollStepView::Token(t),
        (None, Some(e)) => if e == "authorization_pending"@ || e == "slow_down"@ {
            PollStepView::Wait
        } else if e == "access_denied"@ {
            PollStepView::Fail("authorization was denied"@)
        } else if e == "expired_token"@ {
            PollStepView::Fail("device code expired; please try again"@)
        } else {
            PollStepView::Fail("unexpected error "@ + debug_text(e))
        },
        (None, None) => PollStepView::Fail("response contained neither access_token nor error"@),
    }
}

/// Whether an answer asks for slower polling.
pub open spec fn slows_down(token: Option<Seq<char>>, error: Option<Seq<char>>) -> bool {
    token is None && error == Some("slow_down"@)
}

impl DeviceFlow {
    #[verifier::type_invariant]
    spec fn pauses(self) -> bool {
        self.interval >= 1
    }

    /// The flow for a device code. There is always a pause between polls.
    pub fn new(client_id: String, device: DeviceCode) -> (r: DeviceFlow)
        ensures
            r@ == (DeviceFlowView {
                client_id: client_id@,
                device_code: device.device_code@,
                interval: if device.interval < 1 {
                    1
                } else {
                    device.interval
                },
            }),
    {
        let interval: u64 = if device.interval < 1 {
            1
        } else {
            device.interval
        };
        DeviceFlow { client_id, device, interval }
    }

    /// How long to wait before the next poll, in seconds.
    pub fn interval(&self) -> (r: u64)
        ensures
            r == self@.interval,
            r >= 1,
    {
        proof {
            use_type_invariant(self);
        }
        self.interval
    }

    /// The form of a poll.
    pub fn poll_form(&self) -> (r: Vec<(String, String)>)
        ensures
            pair_texts(r@) == seq![
                ("client_id"@, self@.client_id),
                ("device_code"@, self@.device_code),
                ("grant_type"@, GRANT_TYPE@),
            ],
            pair_texts(r@)[2].1 == "urn:ietf:params:oauth:grant-type:device_code"@,
    {
        let mut form: Vec<(String, String)> = Vec::new();
        form.push(("client_id".to_owned(), self.client_id.clone()));
        form.push(("device_code".to_owned(), self.device.device_code.clone()));
        form.push(("grant_type".to_owned(), GRANT_TYPE.to_owned()));
        assert(pair_texts(form@) =~= seq![
            ("client_id"@, self@.client_id),
            ("device_code"@, self@.device_code),
            ("grant_type"@, GRANT_TYPE@),
        ]);
        form
    }

    /// The decision on the token and the error that an answer holds.
    pub fn on_members(&mut self, token: Option<String>, error: Option<String>) -> (r: PollStep)
        requires
            slows_down(opt_text(token), opt_text(error)) ==> old(self)@.interval + 5 <= u64::MAX,
        ensures
            is_step(r, poll_step(opt_text(token), opt_text(error))),
            final(self)@ == (DeviceFlowView {
                interval: if slows_down(opt_text(token), opt_text(error)) {
                    (old(self)@.interval + 5) as u64
                } else {
                    old(self)@.interval
                },
                ..old(self)@
            }),
            r is Token <==> token is Some,
            r matches PollStep::Token(t) ==> Some(t@) == opt_text(token),
            r is Wait <==> token is None && (opt_text(error) == Some("authorization_pending"@)
                || opt_text(error) == Some("slow_down"@)),
            final(self)@.interval == old(self)@.interval + (if token is None && opt_text(error)
                == Some("slow_down"@) {
                5int
            } else {
                0int
            }),
    {
        if let Some(t) = token {
            return PollStep::Token(t);
        }
        let e = match error {
            Some(e) => e,
            None => {
                return PollStep::Fail(
                    AuthError::OAuth(
                        "response contained neither access_token nor error".to_owned(),
                    ),
                );
            },
        };
        if text::str_eq(e.as_str(), "authorization_pending") {
            proof {
                reveal_strlit("authorization_pending");
                reveal_strlit("slow_down");
                assert("authorization_pending"@.len() != "slow_down"@.len());
            }
            PollStep::Wait
        } else if text::str_eq(e.as_str(), "slow_down") {
            self.interval = self.interval + 5;
            PollStep::Wait
        } else if text::str_eq(e.as_str(), "access_denied") {
            PollStep::Fail(AuthError::OAuth("authorization was denied".to_owned()))
        } else if text::str_eq(e.as_str(), "expired_token") {
            PollStep::Fail(AuthError::OAuth("device code expired; please try again".to_owned()))
        } else {
            PollStep::Fail(
                AuthError::OAuth(
                    "unexpected error ".to_owned().concat(text::quoted(e.as_str()).as_str()),
                ),
            )
        }
    }

    /// The decision on the body of an answer to a poll; absent when the body is
    /// not JSON, or when it asks for slower polling than can be counted.
    pub fn on_body(&mut self, body: &[u8]) -> (r: Option<PollStep>)
        ensures
            match (json_member(body@, "access_token"@), json_member(body@, "error"@)) {
                (Some(token), Some(error)) => if slows_down(token, error) && old(self)@.interval + 5
                    > u64::MAX {
                    r is None && final(self)@ == old(self)@
                } else {
                    &&& r matches Some(step) && is_step(step, poll_step(token, error))
                    &&& final(self)@ == (DeviceFlowView {
                        interval: if slows_down(token, error) {
                            (old(self)@.interval + 5) as u64
                        } else {
                            old(self)@.interval
                        },
                        ..old(self)@
                    })
                },
                _ => r is None && final(self)@ == old(self)@,
            },
    {
        let token = match json::member(body, "access_token") {
            Some(t) => t,
            None => return None,
        };
        let error = match json::member(body, "error") {
            Some(e) => e,
            None => return None,
        };
        let slower = match (&token, &error) {
            (None, Some(e)) => text::str_eq(e.as_str(), "slow_down"),
            _ => false,
        };
        if slower && self.interval > 0xffff_ffff_ffff_ffff - 5 {
            return None;
        }
        Some(self.on_members(token, error))
    }
}

/// The page on which the user authorizes the app.
pub fn verification_url(device: &DeviceCode) -> (r: String)
    ensures
        r@ == device.verification_uri@ + "?user_code="@ + device.user_code@,
{
    device.verification_uri.clone().concat("?user_code=").concat(device.user_code.as_str())
}

// ---- laws -----------------------------------------------------------------

/// How a device flow goes on: a token ends it, whatever else the answer says;
/// while the user has not decided, or when GitHub asks to slow down, the flow
/// waits; a refusal, an expired code, any other error and an answer without
/// either end it with a failure.
pub proof fn law_flow_waits_for_the_user(token: Option<Seq<char>>, error: Option<Seq<char>>)
    ensures
        token matches Some(t) ==> poll_step(token, error) == PollStepView::Token(t),
        token is None && (error == Some("authorization_pending"@) || error == Some("slow_down"@))
            ==> poll_step(token, error) is Wait,
        token is None && error == Some("access_denied"@) ==> poll_step(token, error)
            == PollStepView::Fail("authorization was denied"@),
        token is None && error == Some("expired_token"@) ==> poll_step(token, error)
            == PollStepView::Fail("device code expired; please try again"@),
        token is None && error is None ==> poll_step(token, error) == PollStepView::Fail(
            "response contained neither access_token nor error"@,
        ),
        token is None && error is Some && error != Some("authorization_pending"@) && error != Some(
            "slow_down"@,
        ) && error != Some("access_denied"@) && error != Some("expired_token"@) ==> poll_step(
            token,
            error,
        ) == PollStepView::Fail("unexpected error "@ + debug_text(error->0)),
        poll_step(token, error) is Token ==> token is Some,
        poll_step(token, error) is Wait ==> error == Some("authorization_pending"@) || error
            == Some("slow_down"@),
        slows_down(token, error) <==> token is None && error == Some("slow_down"@),
{
    reveal_strlit("authorization_pending");
    reveal_strlit("slow_down");
    reveal_strlit("access_denied");
    reveal_strlit("expired_token");
    assert("authorization_pending"@.len() == 21 && "slow_down"@.len() == 9);
    assert("access_denied"@.len() == 13 && "expired_token"@.len() == 13);
    assert("access_denied"@[0] != "expired_token"@[0]);
}

/// A stored token is used as it is, without asking the user; without one the
/// flow is run, which takes the client id of an app.
pub proof fn law_stored_token_comes_first(stored: Option<Seq<char>>, client_id: Seq<char>, r: Start)
    requires
        is_start(stored, client_id, r),
    ensures
        (stored matches Some(t) && t.len() > 0) <==> r is Stored,
        r matches Start::Stored(t) ==> stored == Some(t@),
        r is RunFlow <==> !(stored matches Some(t) && t.len() > 0) && client_id.len() > 0,
        r is Fail <==> !(stored matches Some(t) && t.len() > 0) && client_id.len() == 0,
{
}

} // verus!
